//! Packages of the user's `nix profile`.

use crate::command::{push_all, push_arg, CommandLine, CommandLineView};
use crate::nixos::install::PlanError;
use crate::text::{
    chain, ends_with, first_at, from_chars, has_suffix, is_listed, lemma_first_at, opt, same,
    strip_prefix, strs,
    to_chars, trim, trim_chars, without_prefix,
};
use crate::utils::misc::{
    get_pname_version_from_storepath, pname_version, store_name, StorePathError,
};
use crate::{
    package_views, update_views, Package, PackageAttr, PackageAttrView, PackageUpdate,
    PackageUpdateView, PackageView,
};
use vstd::prelude::*;

verus! {

/// One element of the profile, as `nix profile list` reports it.
#[derive(Debug)]
pub struct ProfileElement {
    /// The name the profile knows the element by.
    pub name: String,
    pub attr_path: Option<String>,
    pub original_url: Option<String>,
    pub store_paths: Vec<String>,
}

/// Why the profile cannot answer.
#[derive(Clone, Copy, Debug, PartialEq, Eq, Structural)]
pub enum ProfileError {
    /// An element has no store path.
    NoStorePath,
    /// The name in an element's store path cannot be read.
    BadStorePath(StorePathError),
    /// The package is installed, but the profile gives it no name.
    NoProfileName,
    /// No installed package goes by that attribute.
    NotFound,
}

/// The attribute of an element: what follows `legacyPackages.<arch>.` in
/// its attribute path where the path begins so, a nixpkgs attribute; else
/// the path itself in the flake at the element's URL.
pub open spec fn element_attr(path: Seq<char>, url: Seq<char>, arch: Seq<char>) -> PackageAttrView {
    match without_prefix(path, "legacyPackages."@ + arch + seq!['.']) {
        Some(rest) => PackageAttrView::NixPkgs { attr: rest },
        None => PackageAttrView::External { url, attr: path },
    }
}

/// The package of an element. An element without attribute path or URL is
/// no package; name and version are read from its first store path.
pub open spec fn element_package(e: ProfileElement, arch: Seq<char>) -> Option<
    Result<PackageView, ProfileError>,
> {
    match (e.attr_path, e.original_url) {
        (Some(path), Some(url)) => if e.store_paths@.len() == 0 {
            Some(Err(ProfileError::NoStorePath))
        } else {
            match pname_version(store_name(e.store_paths@[0]@)) {
                Err(err) => Some(Err(ProfileError::BadStorePath(err))),
                Ok((pname, version)) => Some(
                    Ok(
                        PackageView {
                            attr: element_attr(path@, url@, arch),
                            pname: Some(pname),
                            version,
                            profile_name: Some(e.name@),
                        },
                    ),
                ),
            }
        },
        _ => None,
    }
}

/// The packages of the elements, in their order; the first element that
/// cannot be read fails the whole list.
pub open spec fn element_packages(elements: Seq<ProfileElement>, arch: Seq<char>) -> Result<
    Seq<PackageView>,
    ProfileError,
>
    decreases elements.len(),
{
    if elements.len() == 0 {
        Ok(Seq::empty())
    } else {
        match element_packages(elements.drop_last(), arch) {
            Err(e) => Err(e),
            Ok(ps) => match element_package(elements.last(), arch) {
                None => Ok(ps),
                Some(Err(e)) => Err(e),
                Some(Ok(p)) => Ok(ps.push(p)),
            },
        }
    }
}

/// Whether a package is meant by `attr`: a nixpkgs package by its
/// attribute; an external one by `url#attr`, or by its URL alone where its
/// attribute ends in `.default`.
pub open spec fn goes_by(p: PackageAttrView, attr: Seq<char>) -> bool {
    match p {
        PackageAttrView::NixPkgs { attr: a } => a == attr,
        PackageAttrView::External { url, attr: a } => attr == url + seq!['#'] + a || (has_suffix(
            a,
            ".default"@,
        ) && url == attr),
    }
}

/// Position of the first package that is meant by `attr`, or the number of
/// packages.
pub open spec fn first_by(list: Seq<PackageView>, attr: Seq<char>) -> int {
    first_at(list.len() as int, |i: int| goes_by(list[i].attr, attr), 0)
}

/// The profile's name for the first installed package meant by `attr`.
pub open spec fn name_of(list: Seq<PackageView>, attr: Seq<char>) -> Result<
    Seq<char>,
    ProfileError,
> {
    let at = first_by(list, attr);
    if 0 <= at < list.len() {
        match list[at].profile_name {
            Some(n) => Ok(n),
            None => Err(ProfileError::NoProfileName),
        }
    } else {
        Err(ProfileError::NotFound)
    }
}

/// The attributes of the installed packages as texts.
pub open spec fn attr_texts(list: Seq<PackageView>) -> Seq<Seq<char>> {
    list.map_values(|p: PackageView| p.attr.text())
}

/// The profile's names of the packages asked for: of each that is
/// installed under exactly that attribute and has a name, in the order
/// asked for.
pub open spec fn names_for(pkgs: Seq<Seq<char>>, list: Seq<PackageView>) -> Seq<Seq<char>> {
    pkgs.filter_map(
        |p: Seq<char>|
            if attr_texts(list).contains(p) {
                match name_of(list, p) {
                    Ok(n) => Some(n),
                    Err(_) => None,
                }
            } else {
                None
            },
    )
}

/// The packages asked for that no installed package goes by.
pub open spec fn missing(pkgs: Seq<Seq<char>>, list: Seq<PackageView>) -> Seq<Seq<char>> {
    pkgs.filter(|p: Seq<char>| first_by(list, p) >= list.len())
}

/// A package as `nix` is told of it: as it stands where it names a flake,
/// which shows in a `#` or a `:`, else as an attribute of nixpkgs.
pub open spec fn installable(pkg: Seq<char>) -> Seq<char> {
    if pkg.contains('#') || pkg.contains(':') {
        pkg
    } else {
        "nixpkgs#"@ + pkg
    }
}

/// The update that an evaluated version means for an installed package:
/// one is due where the trimmed output is not empty and differs from the
/// installed version, or none is installed.
pub open spec fn evaluated_update(pkg: PackageView, output: Option<Seq<char>>) -> Option<
    PackageUpdateView,
> {
    match output {
        Some(o) => {
            let v = trim(o);
            if v.len() > 0 && pkg.version != Some(v) {
                Some(
                    PackageUpdateView {
                        attr: pkg.attr,
                        new_version: v,
                        old_version: match pkg.version {
                            Some(old) => old,
                            None => Seq::empty(),
                        },
                    },
                )
            } else {
                None
            }
        },
        None => None,
    }
}

/// The output found for the package at position `i`.
pub open spec fn output_at(outputs: Seq<Option<String>>, i: int) -> Option<Seq<char>> {
    if 0 <= i < outputs.len() {
        opt(outputs[i])
    } else {
        None
    }
}

/// The updates due for the installed packages, in their order.
pub open spec fn evaluated_updates(pkgs: Seq<PackageView>, outputs: Seq<Option<String>>) -> Seq<
    PackageUpdateView,
> {
    Seq::new(pkgs.len(), |i: int| evaluated_update(pkgs[i], output_at(outputs, i))).filter_map(
        |u: Option<PackageUpdateView>| u,
    )
}

proof fn lemma_error_sticks(elements: Seq<ProfileElement>, arch: Seq<char>, i: int)
    requires
        0 <= i <= elements.len(),
        element_packages(elements.take(i), arch) is Err,
    ensures
        element_packages(elements, arch) == element_packages(elements.take(i), arch),
    decreases elements.len() - i,
{
    if i < elements.len() {
        assert(elements.take(i + 1).drop_last() =~= elements.take(i));
        lemma_error_sticks(elements, arch, i + 1);
    } else {
        assert(elements.take(i) =~= elements);
    }
}

fn element(e: &ProfileElement, arch: &str) -> (r: Option<Result<Package, ProfileError>>)
    ensures
        match r {
            None => element_package(*e, arch@) is None,
            Some(Ok(p)) => element_package(*e, arch@) == Some(
                Ok::<PackageView, ProfileError>(p@),
            ),
            Some(Err(err)) => element_package(*e, arch@) == Some(
                Err::<PackageView, ProfileError>(err),
            ),
        },
{
    let (path, url) = match (&e.attr_path, &e.original_url) {
        (Some(p), Some(u)) => (p, u),
        _ => {
            return None;
        },
    };
    if e.store_paths.len() == 0 {
        return Some(Err(ProfileError::NoStorePath));
    }
    let (pname, version) = match get_pname_version_from_storepath(e.store_paths[0].as_str()) {
        Ok(pair) => pair,
        Err(err) => {
            return Some(Err(ProfileError::BadStorePath(err)));
        },
    };
    let mut prefix = to_chars("legacyPackages.");
    prefix = chain(&prefix, &to_chars(arch));
    prefix.push('.');
    proof {
        assert(prefix@ =~= "legacyPackages."@ + arch@ + seq!['.']);
    }
    let attr = match strip_prefix(&to_chars(path.as_str()), &prefix) {
        Some(rest) => PackageAttr::NixPkgs { attr: from_chars(&rest) },
        None => PackageAttr::External { url: url.clone(), attr: path.clone() },
    };
    Some(Ok(Package { attr, pname: Some(pname), version, profile_name: Some(e.name.clone()) }))
}

/// The installed packages, from the elements of the profile; `arch` is the
/// system that nixpkgs attributes are listed under.
pub fn list(elements: &Vec<ProfileElement>, arch: &str) -> (r: Result<Vec<Package>, ProfileError>)
    ensures
        match r {
            Ok(ps) => element_packages(elements@, arch@) == Ok::<Seq<PackageView>, ProfileError>(
                package_views(ps@),
            ),
            Err(e) => element_packages(elements@, arch@) == Err::<Seq<PackageView>, ProfileError>(
                e,
            ),
        },
{
    let mut out: Vec<Package> = Vec::new();
    let mut i: usize = 0;
    proof {
        assert(elements@.take(0) =~= Seq::empty());
        assert(package_views(out@) =~= Seq::empty());
    }
    while i < elements.len()
        invariant
            i <= elements.len(),
            element_packages(elements@.take(i as int), arch@) == Ok::<
                Seq<PackageView>,
                ProfileError,
            >(package_views(out@)),
        decreases elements.len() - i,
    {
        let ghost before = package_views(out@);
        proof {
            assert(elements@.take(i + 1).drop_last() =~= elements@.take(i as int));
            assert(elements@.take(i + 1).last() == elements@[i as int]);
        }
        match element(&elements[i], arch) {
            None => {},
            Some(Err(e)) => {
                proof {
                    lemma_error_sticks(elements@, arch@, i + 1);
                }
                return Err(e);
            },
            Some(Ok(p)) => {
                out.push(p);
                proof {
                    assert(package_views(out@) =~= before.push(p@));
                }
            },
        }
        i += 1;
    }
    proof {
        assert(elements@.take(elements@.len() as int) =~= elements@);
    }
    Ok(out)
}

fn is_meant(p: &PackageAttr, attr: &Vec<char>) -> (b: bool)
    ensures
        b == goes_by(p@, attr@),
{
    match p {
        PackageAttr::NixPkgs { attr: a } => same(&to_chars(a.as_str()), attr),
        PackageAttr::External { url, attr: a } => {
            let u = to_chars(url.as_str());
            let a = to_chars(a.as_str());
            let mut full = chain(&u, &to_chars("#"));
            proof {
                reveal_strlit("#");
                assert("#"@ =~= seq!['#']);
            }
            full = chain(&full, &a);
            same(attr, &full) || (ends_with(&a, &to_chars(".default")) && same(&u, attr))
        },
    }
}

fn find_by(list: &Vec<Package>, attr: &Vec<char>) -> (at: usize)
    ensures
        at == first_by(package_views(list@), attr@),
        at <= list.len(),
{
    let mut i: usize = 0;
    while i < list.len() && !is_meant(&list[i].attr, attr)
        invariant
            i <= list.len(),
            forall|k: int| 0 <= k < i ==> !goes_by(package_views(list@)[k].attr, attr@),
        decreases list.len() - i,
    {
        i += 1;
    }
    proof {
        let views = package_views(list@);
        let name = attr@;
        lemma_first_at(views.len() as int, |i: int| goes_by(views[i].attr, name), 0, i as int);
    }
    i
}

/// The text of a name or the error in its place.
pub open spec fn name_view(r: Result<String, ProfileError>) -> Result<Seq<char>, ProfileError> {
    match r {
        Ok(s) => Ok(s@),
        Err(e) => Err(e),
    }
}

/// The profile's name for the installed package that `attr` means.
pub fn name_from_attr(attr: &str, list: &Vec<Package>) -> (r: Result<String, ProfileError>)
    ensures
        name_view(r) == name_of(package_views(list@), attr@),
{
    let at = find_by(list, &to_chars(attr));
    if at < list.len() {
        match &list[at].profile_name {
            Some(n) => Ok(n.clone()),
            None => Err(ProfileError::NoProfileName),
        }
    } else {
        Err(ProfileError::NotFound)
    }
}

/// The texts of the attributes of the installed packages.
pub fn attributes(list: &Vec<Package>) -> (out: Vec<String>)
    ensures
        strs(out@) == attr_texts(package_views(list@)),
{
    let ghost want = attr_texts(package_views(list@));
    let mut out: Vec<String> = Vec::new();
    let mut i: usize = 0;
    proof {
        assert(strs(out@) =~= want.take(0));
    }
    while i < list.len()
        invariant
            i <= list.len(),
            want == attr_texts(package_views(list@)),
            strs(out@) == want.take(i as int),
        decreases list.len() - i,
    {
        let ghost before = strs(out@);
        let t = list[i].attr.to_string();
        out.push(t);
        proof {
            assert(strs(out@) =~= before.push(want[i as int]));
            assert(want.take(i + 1) =~= want.take(i as int).push(want[i as int]));
        }
        i += 1;
    }
    proof {
        assert(want.take(list@.len() as int) =~= want);
    }
    out
}

/// The profile's names of those packages asked for that are installed.
pub fn installed_names(pkgs: &Vec<String>, list: &Vec<Package>) -> (out: Vec<String>)
    ensures
        strs(out@) == names_for(strs(pkgs@), package_views(list@)),
{
    let texts = attributes(list);
    let ghost views = package_views(list@);
    let ghost pick = |p: Seq<char>|
        if attr_texts(views).contains(p) {
            match name_of(views, p) {
                Ok(n) => Some(n),
                Err(_) => None,
            }
        } else {
            None
        };
    let ghost all = strs(pkgs@);
    let mut out: Vec<String> = Vec::new();
    let mut i: usize = 0;
    proof {
        assert(all.take(0) =~= Seq::empty());
        assert(strs(out@) =~= Seq::empty());
    }
    while i < pkgs.len()
        invariant
            i <= pkgs.len(),
            all == strs(pkgs@),
            views == package_views(list@),
            strs(texts@) == attr_texts(views),
            pick == (|p: Seq<char>|
                if attr_texts(views).contains(p) {
                    match name_of(views, p) {
                        Ok(n) => Some(n),
                        Err(_) => None,
                    }
                } else {
                    None
                }),
            strs(out@) == all.take(i as int).filter_map(pick),
        decreases pkgs.len() - i,
    {
        let ghost before = strs(out@);
        proof {
            all.lemma_filter_map_take_succ(pick, i as int);
            assert(all[i as int] == pkgs@[i as int]@);
        }
        let mut pushed = false;
        if is_listed(&texts, pkgs[i].as_str()) {
            match name_from_attr(pkgs[i].as_str(), list) {
                Ok(n) => {
                    out.push(n);
                    pushed = true;
                    proof {
                        assert(strs(out@) =~= before + seq![n@]);
                    }
                },
                Err(_) => {},
            }
        }
        proof {
            if !pushed {
                assert(before + Seq::<Seq<char>>::empty() =~= before);
            }
        }
        i += 1;
    }
    proof {
        assert(all.take(pkgs@.len() as int) =~= all);
    }
    out
}

/// Of the packages asked for, those that no installed package goes by.
pub fn not_installed(pkgs: &Vec<String>, list: &Vec<Package>) -> (out: Vec<String>)
    ensures
        strs(out@) == missing(strs(pkgs@), package_views(list@)),
{
    let ghost views = package_views(list@);
    let ghost pred = |p: Seq<char>| first_by(views, p) >= views.len();
    let ghost all = strs(pkgs@);
    let mut out: Vec<String> = Vec::new();
    let mut i: usize = 0;
    proof {
        assert(all.take(0) =~= Seq::empty());
        assert(all.take(0).filter(pred) =~= Seq::empty()) by {
            reveal(Seq::filter);
        }
        assert(strs(out@) =~= Seq::empty());
    }
    while i < pkgs.len()
        invariant
            i <= pkgs.len(),
            all == strs(pkgs@),
            views == package_views(list@),
            pred == (|p: Seq<char>| first_by(views, p) >= views.len()),
            strs(out@) == all.take(i as int).filter(pred),
        decreases pkgs.len() - i,
    {
        let ghost before = strs(out@);
        proof {
            assert(all.take(i + 1) =~= all.take(i as int).push(all[i as int]));
            all.take(i as int).lemma_filter_push(all[i as int], pred);
            assert(all[i as int] == pkgs@[i as int]@);
        }
        if find_by(list, &to_chars(pkgs[i].as_str())) >= list.len() {
            out.push(pkgs[i].clone());
            proof {
                assert(strs(out@) =~= before.push(pkgs@[i as int]@));
            }
        }
        i += 1;
    }
    proof {
        assert(all.take(pkgs@.len() as int) =~= all);
    }
    out
}

fn holds_char(s: &Vec<char>, c: char) -> (b: bool)
    ensures
        b == s@.contains(c),
{
    let mut i: usize = 0;
    while i < s.len()
        invariant
            i <= s.len(),
            forall|k: int| 0 <= k < i ==> s@[k] != c,
        decreases s.len() - i,
    {
        if s[i] == c {
            return true;
        }
        i += 1;
    }
    false
}

/// A package as `nix` is told of it.
pub fn flake_ref(pkg: &str) -> (out: String)
    ensures
        out@ == installable(pkg@),
{
    let chars = to_chars(pkg);
    if holds_char(&chars, '#') || holds_char(&chars, ':') {
        from_chars(&chars)
    } else {
        let mut out = "nixpkgs#".to_owned();
        out.append(pkg);
        out
    }
}

/// The arguments of `nix profile install` for the packages.
pub open spec fn install_args(pkgs: Seq<Seq<char>>) -> Seq<Seq<char>> {
    seq!["--extra-experimental-features"@, "nix-command flakes"@, "profile"@, "install"@]
        + pkgs.map_values(|p: Seq<char>| installable(p)) + seq!["--impure"@]
}

/// The command that installs `pkgs` into the profile: those that no
/// installed package goes by. Fails where none is left.
pub fn install(pkgs: &Vec<String>, list: &Vec<Package>) -> (r: Result<CommandLine, PlanError>)
    ensures
        match r {
            Ok(c) => {
                &&& missing(strs(pkgs@), package_views(list@)).len() > 0
                &&& c@ == (CommandLineView {
                    program: "nix"@,
                    args: install_args(missing(strs(pkgs@), package_views(list@))),
                })
            },
            Err(e) => {
                &&& missing(strs(pkgs@), package_views(list@)).len() == 0
                &&& e == PlanError::NothingToInstall
            },
        },
{
    let fresh = not_installed(pkgs, list);
    if fresh.len() == 0 {
        return Err(PlanError::NothingToInstall);
    }
    let mut args: Vec<String> = Vec::new();
    push_arg(&mut args, "--extra-experimental-features");
    push_arg(&mut args, "nix-command flakes");
    push_arg(&mut args, "profile");
    push_arg(&mut args, "install");
    let ghost head = strs(args@);
    let ghost want = strs(fresh@).map_values(|p: Seq<char>| installable(p));
    let mut i: usize = 0;
    proof {
        assert(head + want.take(0) =~= head);
    }
    while i < fresh.len()
        invariant
            i <= fresh.len(),
            want == strs(fresh@).map_values(|p: Seq<char>| installable(p)),
            strs(args@) == head + want.take(i as int),
        decreases fresh.len() - i,
    {
        push_arg(&mut args, flake_ref(fresh[i].as_str()).as_str());
        proof {
            assert(head + want.take(i + 1) =~= (head + want.take(i as int)).push(want[i as int]));
        }
        i += 1;
    }
    push_arg(&mut args, "--impure");
    proof {
        assert(want.take(fresh@.len() as int) =~= want);
        assert(strs(args@) =~= install_args(strs(fresh@)));
    }
    Ok(CommandLine { program: "nix".to_owned(), args })
}

fn profile_command(verb: &str, names: &Vec<String>) -> (c: CommandLine)
    ensures
        c@ == (CommandLineView { program: "nix"@, args: seq!["profile"@, verb@] + strs(names@) }),
{
    let mut args: Vec<String> = Vec::new();
    push_arg(&mut args, "profile");
    push_arg(&mut args, verb);
    push_all(&mut args, names);
    proof {
        assert(strs(args@) =~= seq!["profile"@, verb@] + strs(names@));
    }
    CommandLine { program: "nix".to_owned(), args }
}

/// The command that removes `pkgs` from the profile, by the profile's
/// names of those that are installed. Fails where none is.
pub fn remove(pkgs: &Vec<String>, list: &Vec<Package>) -> (r: Result<CommandLine, PlanError>)
    ensures
        match r {
            Ok(c) => {
                &&& names_for(strs(pkgs@), package_views(list@)).len() > 0
                &&& c@ == (CommandLineView {
                    program: "nix"@,
                    args: seq!["profile"@, "remove"@] + names_for(
                        strs(pkgs@),
                        package_views(list@),
                    ),
                })
            },
            Err(e) => {
                &&& names_for(strs(pkgs@), package_views(list@)).len() == 0
                &&& e == PlanError::NothingToRemove
            },
        },
{
    let names = installed_names(pkgs, list);
    if names.len() == 0 {
        return Err(PlanError::NothingToRemove);
    }
    Ok(profile_command("remove", &names))
}

/// The command that upgrades `pkgs` in the profile, by the profile's names
/// of those that are installed. Fails where none is.
pub fn update(pkgs: &Vec<String>, list: &Vec<Package>) -> (r: Result<CommandLine, PlanError>)
    ensures
        match r {
            Ok(c) => {
                &&& names_for(strs(pkgs@), package_views(list@)).len() > 0
                &&& c@ == (CommandLineView {
                    program: "nix"@,
                    args: seq!["profile"@, "upgrade"@] + names_for(
                        strs(pkgs@),
                        package_views(list@),
                    ),
                })
            },
            Err(e) => {
                &&& names_for(strs(pkgs@), package_views(list@)).len() == 0
                &&& e == PlanError::NothingToUpdate
            },
        },
{
    let names = installed_names(pkgs, list);
    if names.len() == 0 {
        return Err(PlanError::NothingToUpdate);
    }
    Ok(profile_command("upgrade", &names))
}

/// The command that upgrades every package of the profile.
pub fn update_all() -> (c: CommandLine)
    ensures
        c@ == (CommandLineView { program: "nix"@, args: seq!["profile"@, "upgrade"@, "--all"@] }),
{
    let mut args: Vec<String> = Vec::new();
    push_arg(&mut args, "profile");
    push_arg(&mut args, "upgrade");
    push_arg(&mut args, "--all");
    proof {
        assert(strs(args@) =~= seq!["profile"@, "upgrade"@, "--all"@]);
    }
    CommandLine { program: "nix".to_owned(), args }
}

/// The command that lists the profile.
pub fn list_command() -> (c: CommandLine)
    ensures
        c@ == (CommandLineView { program: "nix"@, args: seq!["profile"@, "list"@, "--json"@] }),
{
    let mut args: Vec<String> = Vec::new();
    push_arg(&mut args, "profile");
    push_arg(&mut args, "list");
    push_arg(&mut args, "--json");
    proof {
        assert(strs(args@) =~= seq!["profile"@, "list"@, "--json"@]);
    }
    CommandLine { program: "nix".to_owned(), args }
}

/// The command that runs a package without installing it.
pub fn run(pkg: &str, args: &Vec<String>) -> (c: CommandLine)
    ensures
        c@ == (CommandLineView {
            program: "nix"@,
            args: seq![
                "--extra-experimental-features"@,
                "nix-command flakes"@,
                "run"@,
                installable(pkg@),
                "--impure"@,
                "--"@,
            ] + strs(args@),
        }),
{
    let mut out: Vec<String> = Vec::new();
    push_arg(&mut out, "--extra-experimental-features");
    push_arg(&mut out, "nix-command flakes");
    push_arg(&mut out, "run");
    push_arg(&mut out, flake_ref(pkg).as_str());
    push_arg(&mut out, "--impure");
    push_arg(&mut out, "--");
    push_all(&mut out, args);
    proof {
        assert(strs(out@) =~= seq![
            "--extra-experimental-features"@,
            "nix-command flakes"@,
            "run"@,
            installable(pkg@),
            "--impure"@,
            "--"@,
        ] + strs(args@));
    }
    CommandLine { program: "nix".to_owned(), args: out }
}

/// The flake reference whose evaluation gives the version of a package.
pub open spec fn version_ref(attr: PackageAttrView) -> Seq<char> {
    match attr {
        PackageAttrView::NixPkgs { attr } => "nixpkgs#"@ + attr + ".version"@,
        PackageAttrView::External { url, attr } => url + seq!['#'] + attr + ".version"@,
    }
}

/// The command that evaluates the version a package has now.
pub fn version_query(attr: &PackageAttr) -> (c: CommandLine)
    ensures
        c@ == (CommandLineView {
            program: "nix"@,
            args: seq!["eval"@, version_ref(attr@), "--raw"@],
        }),
{
    let mut target = match attr {
        PackageAttr::NixPkgs { attr } => {
            let mut t = "nixpkgs#".to_owned();
            t.append(attr.as_str());
            t
        },
        PackageAttr::External { url, attr } => {
            let mut t = url.clone();
            t.push('#');
            t.append(attr.as_str());
            proof {
                assert(url@.push('#') =~= url@ + seq!['#']);
            }
            t
        },
    };
    target.append(".version");
    let mut args: Vec<String> = Vec::new();
    push_arg(&mut args, "eval");
    push_arg(&mut args, target.as_str());
    push_arg(&mut args, "--raw");
    proof {
        assert(strs(args@) =~= seq!["eval"@, version_ref(attr@), "--raw"@]);
    }
    CommandLine { program: "nix".to_owned(), args }
}

fn update_from(pkg: Package, output: &Option<String>) -> (r: Option<PackageUpdate>)
    ensures
        match r {
            Some(u) => evaluated_update(pkg@, opt(*output)) == Some(u@),
            None => evaluated_update(pkg@, opt(*output)) is None,
        },
{
    let o = match output {
        Some(o) => o,
        None => {
            return None;
        },
    };
    let v = trim_chars(&to_chars(o.as_str()));
    if v.len() == 0 {
        return None;
    }
    let Package { attr, pname: _, version: installed, profile_name: _ } = pkg;
    let differs = match &installed {
        Some(old) => !same(&to_chars(old.as_str()), &v),
        None => true,
    };
    if differs {
        let old_version = match installed {
            Some(old) => old,
            None => String::new(),
        };
        Some(PackageUpdate { attr, new_version: from_chars(&v), old_version })
    } else {
        None
    }
}

/// The updates due for the installed packages, given for each the output
/// of evaluating its version, where the evaluation ran.
pub fn updatable_all(installed: Vec<Package>, outputs: &Vec<Option<String>>) -> (out: Vec<
    PackageUpdate,
>)
    ensures
        update_views(out@) == evaluated_updates(package_views(installed@), outputs@),
{
    let ghost pkgs = package_views(installed@);
    let ghost each = Seq::new(
        pkgs.len(),
        |i: int| evaluated_update(pkgs[i], output_at(outputs@, i)),
    );
    let ghost pick = |u: Option<PackageUpdateView>| u;
    let mut out: Vec<PackageUpdate> = Vec::new();
    let mut i: usize = 0;
    let none: Option<String> = None;
    let n: usize = installed.len();
    proof {
        assert(each.take(0) =~= Seq::empty());
        assert(update_views(out@) =~= Seq::empty());
    }
    for pkg in it: installed
        invariant
            it.seq().len() == n,
            it.seq().len() == pkgs.len(),
            pkgs == package_views(it.seq()),
            each == Seq::new(
                pkgs.len(),
                |i: int| evaluated_update(pkgs[i], output_at(outputs@, i)),
            ),
            pick == (|u: Option<PackageUpdateView>| u),
            i == it.index(),
            none is None,
            update_views(out@) == each.take(i as int).filter_map(pick),
    {
        let ghost before = update_views(out@);
        proof {
            assert(pkgs[i as int] == pkg@);
            each.lemma_filter_map_take_succ(pick, i as int);
        }
        let output = if i < outputs.len() {
            &outputs[i]
        } else {
            &none
        };
        match update_from(pkg, output) {
            Some(u) => {
                out.push(u);
                proof {
                    assert(update_views(out@) =~= before + seq![u@]);
                }
            },
            None => {
                proof {
                    assert(before + Seq::<PackageUpdateView>::empty() =~= before);
                }
            },
        }
        i += 1;
    }
    proof {
        assert(each.take(pkgs.len() as int) =~= each);
    }
    out
}

} // verus!
