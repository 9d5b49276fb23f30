//! Packages installed with `nix-env`.

use crate::command::{push_all, push_arg, CommandLine, CommandLineView};
use crate::nixos::install::PlanError;
use crate::profile::{attr_texts, attributes};
use crate::text::{
    first_at, from_chars, has_prefix, is_listed, is_space, is_whitespace, lemma_first_at, opt, rows,
    same, slice, split,
    split_chars, starts_with, strs, to_chars,
};
use crate::utils::misc::base_name;
use crate::{package_views, Package, PackageAttr, PackageAttrView, PackageView};
use vstd::prelude::*;

verus! {

/// Why the channel is not known.
#[derive(Clone, Copy, Debug, PartialEq, Eq, Structural)]
pub enum ChannelError {
    /// No channel of the list is a `nixos` or a `nixpkgs` channel.
    NoChannel,
}

/// Whether a line of the channel list names a channel of packages.
pub open spec fn is_channel_line(line: Seq<char>) -> bool {
    has_prefix(line, "nixos"@) || has_prefix(line, "nixpkgs"@)
}

/// Position of the first line that names a channel of packages, or the
/// number of lines.
pub open spec fn first_channel(lines: Seq<Seq<char>>) -> int {
    first_at(lines.len() as int, |i: int| is_channel_line(lines[i]), 0)
}

/// Position of the first white-space character, or the length of the text.
pub open spec fn first_space(s: Seq<char>) -> int {
    first_at(s.len() as int, |i: int| is_space(s[i]), 0)
}

/// The channel of packages: on the first line of the channel list that
/// begins with `nixos` or `nixpkgs`, what stands before the first white
/// space.
pub open spec fn channel_of(output: Seq<char>) -> Result<Seq<char>, ChannelError> {
    let lines = split(output, '\n');
    let at = first_channel(lines);
    if 0 <= at < lines.len() {
        Ok(lines[at].take(first_space(lines[at])))
    } else {
        Err(ChannelError::NoChannel)
    }
}

/// Reads the channel of packages out of what `nix-channel --list` printed.
pub fn get_channel(output: &str) -> (r: Result<String, ChannelError>)
    ensures
        match r {
            Ok(c) => channel_of(output@) == Ok::<Seq<char>, ChannelError>(c@),
            Err(e) => channel_of(output@) == Err::<Seq<char>, ChannelError>(e),
        },
{
    let lines = split_chars(&to_chars(output), '\n');
    let nixos = to_chars("nixos");
    let nixpkgs = to_chars("nixpkgs");
    let mut i: usize = 0;
    while i < lines.len() && !(starts_with(&lines[i], &nixos) || starts_with(&lines[i], &nixpkgs))
        invariant
            i <= lines.len(),
            nixos@ == "nixos"@,
            nixpkgs@ == "nixpkgs"@,
            forall|k: int| 0 <= k < i ==> !is_channel_line(rows(lines@)[k]),
        decreases lines.len() - i,
    {
        proof {
            assert(rows(lines@)[i as int] == lines@[i as int]@);
        }
        i += 1;
    }
    proof {
        if i < lines.len() {
            assert(rows(lines@)[i as int] == lines@[i as int]@);
        }
        let all = rows(lines@);
        lemma_first_at(all.len() as int, |i: int| is_channel_line(all[i]), 0, i as int);
    }
    if i == lines.len() {
        return Err(ChannelError::NoChannel);
    }
    let line = &lines[i];
    let mut k: usize = 0;
    while k < line.len() && !is_whitespace(line[k])
        invariant
            k <= line.len(),
            forall|j: int| 0 <= j < k ==> !is_space(line@[j]),
        decreases line.len() - k,
    {
        k += 1;
    }
    proof {
        let text = line@;
        lemma_first_at(text.len() as int, |i: int| is_space(text[i]), 0, k as int);
    }
    let word = slice(line, 0, k);
    proof {
        assert(word@ =~= line@.take(k as int));
    }
    Ok(from_chars(&word))
}

/// The package installed under a package name, given the rows of attribute
/// and version that the record store holds under that name: there is one
/// only where exactly one row is found.
pub open spec fn env_package(pname: Seq<char>, found: Seq<(String, Option<String>)>) -> Option<
    PackageView,
> {
    if found.len() == 1 {
        Some(
            PackageView {
                attr: PackageAttrView::NixPkgs { attr: found[0].0@ },
                pname: Some(pname),
                version: opt(found[0].1),
                profile_name: None,
            },
        )
    } else {
        None
    }
}

/// The rows found for the package name at position `i`.
pub open spec fn found_at(found: Seq<Vec<(String, Option<String>)>>, i: int) -> Seq<
    (String, Option<String>),
> {
    if 0 <= i < found.len() {
        found[i]@
    } else {
        Seq::empty()
    }
}

/// The installed packages, in the order of the package names.
pub open spec fn env_packages(
    pnames: Seq<Seq<char>>,
    found: Seq<Vec<(String, Option<String>)>>,
) -> Seq<PackageView> {
    Seq::new(pnames.len(), |i: int| env_package(pnames[i], found_at(found, i))).filter_map(
        |p: Option<PackageView>| p,
    )
}

/// The installed packages, given the package names that `nix-env` reports
/// and for each the rows that the record store holds under it.
pub fn list(pnames: &Vec<String>, found: &Vec<Vec<(String, Option<String>)>>) -> (out: Vec<
    Package,
>)
    ensures
        package_views(out@) == env_packages(strs(pnames@), found@),
{
    let ghost each = Seq::new(
        pnames@.len(),
        |i: int| env_package(strs(pnames@)[i], found_at(found@, i)),
    );
    let ghost pick = |p: Option<PackageView>| p;
    let mut out: Vec<Package> = Vec::new();
    let mut i: usize = 0;
    proof {
        assert(each.take(0) =~= Seq::empty());
        assert(package_views(out@) =~= Seq::empty());
    }
    while i < pnames.len()
        invariant
            i <= pnames.len(),
            each.len() == pnames@.len(),
            each == Seq::new(
                pnames@.len(),
                |i: int| env_package(strs(pnames@)[i], found_at(found@, i)),
            ),
            pick == (|p: Option<PackageView>| p),
            package_views(out@) == each.take(i as int).filter_map(pick),
        decreases pnames.len() - i,
    {
        let ghost before = package_views(out@);
        proof {
            each.lemma_filter_map_take_succ(pick, i as int);
        }
        if i < found.len() && found[i].len() == 1 {
            let row = &found[i][0];
            let version = match &row.1 {
                Some(v) => Some(v.clone()),
                None => None,
            };
            let p = Package {
                attr: PackageAttr::NixPkgs { attr: row.0.clone() },
                pname: Some(pnames[i].clone()),
                version,
                profile_name: None,
            };
            out.push(p);
            proof {
                assert(package_views(out@) =~= before + seq![p@]);
            }
        } else {
            proof {
                assert(before + Seq::<PackageView>::empty() =~= before);
            }
        }
        i += 1;
    }
    proof {
        assert(each.take(pnames@.len() as int) =~= each);
    }
    out
}

/// The names to ask the store service about: of each output path, what
/// follows its last `/`.
pub fn list_accurate(outputs: &Vec<String>) -> (out: Vec<String>)
    ensures
        strs(out@) == strs(outputs@).map_values(|p: Seq<char>| base_name(p)),
{
    let ghost want = strs(outputs@).map_values(|p: Seq<char>| base_name(p));
    let mut out: Vec<String> = Vec::new();
    let mut i: usize = 0;
    proof {
        assert(strs(out@) =~= want.take(0));
    }
    while i < outputs.len()
        invariant
            i <= outputs.len(),
            want == strs(outputs@).map_values(|p: Seq<char>| base_name(p)),
            strs(out@) == want.take(i as int),
        decreases outputs.len() - i,
    {
        let ghost before = strs(out@);
        let path = to_chars(outputs[i].as_str());
        let start = crate::text::after_last(&path, '/');
        let name = slice(&path, start, path.len());
        proof {
            assert(name@ =~= base_name(path@));
        }
        out.push(from_chars(&name));
        proof {
            assert(strs(out@) =~= before.push(name@));
            assert(want.take(i + 1) =~= want.take(i as int).push(want[i as int]));
        }
        i += 1;
    }
    proof {
        assert(want.take(outputs@.len() as int) =~= want);
    }
    out
}

/// Position of the first package that is the nixpkgs package `attr`, or
/// the number of packages.
pub open spec fn first_nixpkgs(list: Seq<PackageView>, attr: Seq<char>) -> int {
    first_at(
        list.len() as int,
        |i: int| list[i].attr == (PackageAttrView::NixPkgs { attr }),
        0,
    )
}

fn find_nixpkgs(list: &Vec<Package>, attr: &Vec<char>) -> (at: usize)
    ensures
        at == first_nixpkgs(package_views(list@), attr@),
        at <= list.len(),
{
    let mut i: usize = 0;
    loop
        invariant_except_break
            i <= list.len(),
            forall|k: int|
                0 <= k < i ==> package_views(list@)[k].attr != (PackageAttrView::NixPkgs {
                    attr: attr@,
                }),
        ensures
            i <= list.len(),
            forall|k: int|
                0 <= k < i ==> package_views(list@)[k].attr != (PackageAttrView::NixPkgs {
                    attr: attr@,
                }),
            i < list.len() ==> package_views(list@)[i as int].attr == (PackageAttrView::NixPkgs {
                attr: attr@,
            }),
        decreases list.len() - i,
    {
        if i == list.len() {
            break;
        }
        let hit = match &list[i].attr {
            PackageAttr::NixPkgs { attr: a } => same(&to_chars(a.as_str()), attr),
            PackageAttr::External { url: _, attr: _ } => false,
        };
        if hit {
            break;
        }
        i += 1;
    }
    proof {
        let views = package_views(list@);
        let name = attr@;
        lemma_first_at(
            views.len() as int,
            |i: int| views[i].attr == (PackageAttrView::NixPkgs { attr: name }),
            0,
            i as int,
        );
    }
    i
}

/// The packages asked for that are not installed from nixpkgs.
pub open spec fn absent(pkgs: Seq<Seq<char>>, list: Seq<PackageView>) -> Seq<Seq<char>> {
    pkgs.filter(|p: Seq<char>| first_nixpkgs(list, p) >= list.len())
}

/// The package names of the packages asked for: of each that is installed
/// from nixpkgs and known by a package name, in the order asked for.
pub open spec fn pnames_for(pkgs: Seq<Seq<char>>, list: Seq<PackageView>) -> Seq<Seq<char>> {
    pkgs.filter_map(
        |p: Seq<char>|
            {
                let at = first_nixpkgs(list, p);
                if 0 <= at < list.len() {
                    list[at].pname
                } else {
                    None
                }
            },
    )
}

/// The packages asked for that are installed: their attribute is the text
/// of an installed package's attribute.
pub open spec fn present(pkgs: Seq<Seq<char>>, list: Seq<PackageView>) -> Seq<Seq<char>> {
    pkgs.filter(|p: Seq<char>| attr_texts(list).contains(p))
}

/// Each attribute under the channel: `<channel>.<attribute>`.
pub open spec fn under(channel: Seq<char>, attrs: Seq<Seq<char>>) -> Seq<Seq<char>> {
    attrs.map_values(|a: Seq<char>| channel + seq!['.'] + a)
}

/// The command that installs `pkgs` from the channel: those that are not
/// installed yet. Fails where none is left.
pub fn install(pkgs: &Vec<String>, list: &Vec<Package>, channel: &str) -> (r: Result<
    CommandLine,
    PlanError,
>)
    ensures
        match r {
            Ok(c) => {
                &&& absent(strs(pkgs@), package_views(list@)).len() > 0
                &&& c@ == (CommandLineView {
                    program: "nix-env"@,
                    args: seq!["-iA"@] + under(
                        channel@,
                        absent(strs(pkgs@), package_views(list@)),
                    ),
                })
            },
            Err(e) => {
                &&& absent(strs(pkgs@), package_views(list@)).len() == 0
                &&& e == PlanError::NothingToInstall
            },
        },
{
    let ghost views = package_views(list@);
    let ghost pred = |p: Seq<char>| first_nixpkgs(views, p) >= views.len();
    let ghost all = strs(pkgs@);
    let ghost name = |a: Seq<char>| channel@ + seq!['.'] + a;
    let mut args: Vec<String> = Vec::new();
    push_arg(&mut args, "-iA");
    let ghost head = strs(args@);
    let mut i: usize = 0;
    proof {
        assert(all.take(0) =~= Seq::empty());
        assert(all.take(0).filter(pred) =~= Seq::empty()) by {
            reveal(Seq::filter);
        }
        assert(strs(args@) =~= head + all.take(0).filter(pred).map_values(name));
    }
    while i < pkgs.len()
        invariant
            i <= pkgs.len(),
            all == strs(pkgs@),
            views == package_views(list@),
            head == seq!["-iA"@],
            pred == (|p: Seq<char>| first_nixpkgs(views, p) >= views.len()),
            name == (|a: Seq<char>| channel@ + seq!['.'] + a),
            strs(args@) == head + all.take(i as int).filter(pred).map_values(name),
        decreases pkgs.len() - i,
    {
        let ghost before = strs(args@);
        let ghost kept = all.take(i as int).filter(pred);
        proof {
            assert(all.take(i + 1) =~= all.take(i as int).push(all[i as int]));
            all.take(i as int).lemma_filter_push(all[i as int], pred);
            assert(all[i as int] == pkgs@[i as int]@);
        }
        if find_nixpkgs(list, &to_chars(pkgs[i].as_str())) >= list.len() {
            let mut arg = channel.to_owned();
            arg.push('.');
            arg.append(pkgs[i].as_str());
            proof {
                assert(channel@.push('.') =~= channel@ + seq!['.']);
            }
            push_arg(&mut args, arg.as_str());
            proof {
                assert(kept.push(all[i as int]).map_values(name) =~= kept.map_values(name).push(
                    arg@,
                ));
                assert(strs(args@) =~= head + kept.push(all[i as int]).map_values(name));
            }
        }
        i += 1;
    }
    proof {
        assert(all.take(pkgs@.len() as int) =~= all);
    }
    if args.len() == 1 {
        proof {
            assert(all.filter(pred).map_values(name).len() == 0);
        }
        return Err(PlanError::NothingToInstall);
    }
    proof {
        assert(all.filter(pred).map_values(name).len() > 0);
    }
    Ok(CommandLine { program: "nix-env".to_owned(), args })
}

/// The command that uninstalls `pkgs`, by the package names of those that
/// are installed. Fails where none is.
pub fn remove(pkgs: &Vec<String>, list: &Vec<Package>) -> (r: Result<CommandLine, PlanError>)
    ensures
        match r {
            Ok(c) => {
                &&& pnames_for(strs(pkgs@), package_views(list@)).len() > 0
                &&& c@ == (CommandLineView {
                    program: "nix-env"@,
                    args: seq!["--uninstall"@] + pnames_for(strs(pkgs@), package_views(list@)),
                })
            },
            Err(e) => {
                &&& pnames_for(strs(pkgs@), package_views(list@)).len() == 0
                &&& e == PlanError::NothingToRemove
            },
        },
{
    let ghost views = package_views(list@);
    let ghost pick = |p: Seq<char>|
        {
            let at = first_nixpkgs(views, p);
            if 0 <= at < views.len() {
                views[at].pname
            } else {
                None
            }
        };
    let ghost all = strs(pkgs@);
    let mut args: Vec<String> = Vec::new();
    push_arg(&mut args, "--uninstall");
    let ghost head = strs(args@);
    let mut i: usize = 0;
    proof {
        assert(all.take(0) =~= Seq::empty());
        assert(strs(args@) =~= head + all.take(0).filter_map(pick));
    }
    while i < pkgs.len()
        invariant
            i <= pkgs.len(),
            all == strs(pkgs@),
            views == package_views(list@),
            head == seq!["--uninstall"@],
            pick == (|p: Seq<char>|
                {
                    let at = first_nixpkgs(views, p);
                    if 0 <= at < views.len() {
                        views[at].pname
                    } else {
                        None
                    }
                }),
            strs(args@) == head + all.take(i as int).filter_map(pick),
        decreases pkgs.len() - i,
    {
        let ghost before = all.take(i as int).filter_map(pick);
        proof {
            all.lemma_filter_map_take_succ(pick, i as int);
            assert(all[i as int] == pkgs@[i as int]@);
        }
        let at = find_nixpkgs(list, &to_chars(pkgs[i].as_str()));
        let mut pushed = false;
        if at < list.len() {
            proof {
                assert(views[at as int] == list@[at as int]@);
            }
            match &list[at].pname {
                Some(n) => {
                    push_arg(&mut args, n.as_str());
                    pushed = true;
                    proof {
                        assert(strs(args@) =~= head + (before + seq![n@]));
                    }
                },
                None => {},
            }
        }
        proof {
            if !pushed {
                assert(before + Seq::<Seq<char>>::empty() =~= before);
            }
        }
        i += 1;
    }
    proof {
        assert(all.take(pkgs@.len() as int) =~= all);
    }
    if args.len() == 1 {
        proof {
            assert(all.filter_map(pick).len() == 0);
        }
        return Err(PlanError::NothingToRemove);
    }
    proof {
        assert(all.filter_map(pick).len() > 0);
    }
    Ok(CommandLine { program: "nix-env".to_owned(), args })
}

/// The command that upgrades packages. It is given where at least one of
/// `pkgs` is installed, and then names every one of `pkgs`, as asked for.
pub fn update(pkgs: &Vec<String>, list: &Vec<Package>) -> (r: Result<CommandLine, PlanError>)
    ensures
        match r {
            Ok(c) => {
                &&& present(strs(pkgs@), package_views(list@)).len() > 0
                &&& c@ == (CommandLineView {
                    program: "nix-env"@,
                    args: seq!["-uA"@] + strs(pkgs@),
                })
            },
            Err(e) => {
                &&& present(strs(pkgs@), package_views(list@)).len() == 0
                &&& e == PlanError::NothingToUpdate
            },
        },
{
    let texts = attributes(list);
    let ghost views = package_views(list@);
    let ghost pred = |p: Seq<char>| attr_texts(views).contains(p);
    let ghost all = strs(pkgs@);
    let mut any = false;
    let mut i: usize = 0;
    proof {
        assert(all.take(0) =~= Seq::empty());
        assert(all.take(0).filter(pred) =~= Seq::empty()) by {
            reveal(Seq::filter);
        }
    }
    while i < pkgs.len()
        invariant
            i <= pkgs.len(),
            all == strs(pkgs@),
            views == package_views(list@),
            strs(texts@) == attr_texts(views),
            pred == (|p: Seq<char>| attr_texts(views).contains(p)),
            any == (all.take(i as int).filter(pred).len() > 0),
        decreases pkgs.len() - i,
    {
        proof {
            assert(all.take(i + 1) =~= all.take(i as int).push(all[i as int]));
            all.take(i as int).lemma_filter_push(all[i as int], pred);
            assert(all[i as int] == pkgs@[i as int]@);
        }
        if is_listed(&texts, pkgs[i].as_str()) {
            any = true;
        }
        i += 1;
    }
    proof {
        assert(all.take(pkgs@.len() as int) =~= all);
    }
    if !any {
        return Err(PlanError::NothingToUpdate);
    }
    let mut args: Vec<String> = Vec::new();
    push_arg(&mut args, "-uA");
    push_all(&mut args, pkgs);
    proof {
        assert(strs(args@) =~= seq!["-uA"@] + strs(pkgs@));
    }
    Ok(CommandLine { program: "nix-env".to_owned(), args })
}

/// The command that lists what is installed.
pub fn list_command() -> (c: CommandLine)
    ensures
        c@ == (CommandLineView {
            program: "nix-env"@,
            args: seq!["-q"@, "--out-path"@, "--installed"@, "--json"@],
        }),
{
    let mut args: Vec<String> = Vec::new();
    push_arg(&mut args, "-q");
    push_arg(&mut args, "--out-path");
    push_arg(&mut args, "--installed");
    push_arg(&mut args, "--json");
    proof {
        assert(strs(args@) =~= seq!["-q"@, "--out-path"@, "--installed"@, "--json"@]);
    }
    CommandLine { program: "nix-env".to_owned(), args }
}

} // verus!
