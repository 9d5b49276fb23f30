//! Taking packages out of `environment.systemPackages`.

use crate::nixos::install::{name_at, qualified, qualify, PlanError};
use crate::text::{is_listed, strs};
use vstd::prelude::*;

verus! {

/// The packages to remove, in the order asked for: those that are known
/// and whose attribute is among the installed.
pub open spec fn present_packages(
    pkgs: Seq<Seq<char>>,
    found: Seq<Option<String>>,
    installed: Seq<Seq<char>>,
) -> Seq<Seq<char>> {
    Seq::new(
        pkgs.len(),
        |i: int|
            if name_at(found, i) is Some && installed.contains(pkgs[i]) {
                Some(pkgs[i])
            } else {
                None
            },
    ).filter_map(|p: Option<Seq<char>>| p)
}

/// Of the packages asked for, those to remove: `found` holds for each the
/// package name it is known under, `installed` the attributes installed.
pub fn to_remove(pkgs: &Vec<String>, found: &Vec<Option<String>>, installed: &Vec<String>) -> (out:
    Vec<String>)
    ensures
        strs(out@) == present_packages(strs(pkgs@), found@, strs(installed@)),
{
    let ghost each = Seq::new(
        pkgs@.len(),
        |i: int|
            if name_at(found@, i) is Some && strs(installed@).contains(strs(pkgs@)[i]) {
                Some(strs(pkgs@)[i])
            } else {
                None
            },
    );
    let ghost pick = |p: Option<Seq<char>>| p;
    let mut out: Vec<String> = Vec::new();
    let mut i: usize = 0;
    proof {
        assert(each.take(0) =~= Seq::empty());
        assert(strs(out@) =~= Seq::empty());
    }
    while i < pkgs.len()
        invariant
            i <= pkgs.len(),
            each.len() == pkgs@.len(),
            each == Seq::new(
                pkgs@.len(),
                |i: int|
                    if name_at(found@, i) is Some && strs(installed@).contains(strs(pkgs@)[i]) {
                        Some(strs(pkgs@)[i])
                    } else {
                        None
                    },
            ),
            pick == (|p: Option<Seq<char>>| p),
            strs(out@) == each.take(i as int).filter_map(pick),
        decreases pkgs.len() - i,
    {
        let ghost before = strs(out@);
        proof {
            each.lemma_filter_map_take_succ(pick, i as int);
        }
        let known = i < found.len() && found[i].is_some();
        if known && is_listed(installed, pkgs[i].as_str()) {
            out.push(pkgs[i].clone());
            proof {
                assert(strs(out@) =~= before + seq![pkgs@[i as int]@]);
            }
        } else {
            proof {
                assert(before + Seq::<Seq<char>>::empty() =~= before);
            }
        }
        i += 1;
    }
    proof {
        assert(each.take(pkgs@.len() as int) =~= each);
    }
    out
}

/// What is taken out of the system configuration to remove `pkgs`: the
/// packages that are known and installed, named as the package list has
/// them. Fails where no package is left.
pub fn remove(
    pkgs: &Vec<String>,
    found: &Vec<Option<String>>,
    installed: &Vec<String>,
    scopes: &Option<Vec<String>>,
) -> (r: Result<Vec<String>, PlanError>)
    ensures
        match r {
            Ok(names) => {
                &&& present_packages(strs(pkgs@), found@, strs(installed@)).len() > 0
                &&& strs(names@) == qualified(
                    present_packages(strs(pkgs@), found@, strs(installed@)),
                    match *scopes {
                        Some(s) => Some(strs(s@)),
                        None => None,
                    },
                )
            },
            Err(e) => {
                &&& present_packages(strs(pkgs@), found@, strs(installed@)).len() == 0
                &&& e == PlanError::NothingToRemove
            },
        },
{
    let names = to_remove(pkgs, found, installed);
    if names.len() == 0 {
        return Err(PlanError::NothingToRemove);
    }
    Ok(qualify(names, scopes))
}

} // verus!
