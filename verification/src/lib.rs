//! Package metadata cache, hybrid search planning and ranking, and the
//! decisions behind the install, remove and update flows of a Nix system.

pub mod command;
pub mod config;
pub mod generate;
pub mod helper;
pub mod homemanager;
pub mod metadata;
pub mod nixenv;
pub mod nixos;
pub mod order;
pub mod profile;
pub mod text;
pub mod toml;
pub mod utils;

use crate::text::{
    contains, first_at, from_chars, includes, lemma_first_at, lemma_split_in_two, occurs_at, opt,
    rows, split, split_chars, to_chars, trim, trim_chars,
};
use vstd::prelude::*;

verus! {

/// How a package is named: by its attribute in nixpkgs, or by a flake URL
/// and an attribute path in that flake.
#[derive(Debug, Clone)]
pub enum PackageAttr {
    NixPkgs { attr: String },
    External { url: String, attr: String },
}

/// What a `PackageAttr` holds, as plain values.
pub enum PackageAttrView {
    NixPkgs { attr: Seq<char> },
    External { url: Seq<char>, attr: Seq<char> },
}

impl View for PackageAttr {
    type V = PackageAttrView;

    open spec fn view(&self) -> PackageAttrView {
        match self {
            PackageAttr::NixPkgs { attr } => PackageAttrView::NixPkgs { attr: attr@ },
            PackageAttr::External { url, attr } => PackageAttrView::External {
                url: url@,
                attr: attr@,
            },
        }
    }
}

impl PackageAttrView {
    /// The attribute as it is written on a command line: a nixpkgs
    /// attribute as it stands, an external one as `url#attr`.
    pub open spec fn text(self) -> Seq<char> {
        match self {
            PackageAttrView::NixPkgs { attr } => attr,
            PackageAttrView::External { url, attr } => url + seq!['#'] + attr,
        }
    }
}

impl PackageAttr {
    /// The attribute as it is written on a command line.
    pub fn to_string(&self) -> (out: String)
        ensures
            out@ == self@.text(),
    {
        match self {
            PackageAttr::NixPkgs { attr } => attr.clone(),
            PackageAttr::External { url, attr } => {
                let mut out = url.clone();
                out.push('#');
                out.append(attr.as_str());
                proof {
                    assert(url@.push('#') =~= url@ + seq!['#']);
                }
                out
            },
        }
    }

    /// A copy that holds the same texts.
    pub fn duplicate(&self) -> (out: PackageAttr)
        ensures
            out@ == self@,
    {
        match self {
            PackageAttr::NixPkgs { attr } => PackageAttr::NixPkgs { attr: attr.clone() },
            PackageAttr::External { url, attr } => PackageAttr::External {
                url: url.clone(),
                attr: attr.clone(),
            },
        }
    }
}

impl Default for PackageAttr {
    fn default() -> (out: PackageAttr)
        ensures
            out@ == (PackageAttrView::NixPkgs { attr: Seq::empty() }),
    {
        PackageAttr::NixPkgs { attr: String::new() }
    }
}

/// An installed package.
#[derive(Debug, Clone)]
pub struct Package {
    pub attr: PackageAttr,
    pub pname: Option<String>,
    pub version: Option<String>,
    pub profile_name: Option<String>,
}

/// What a `Package` holds, as plain values.
pub struct PackageView {
    pub attr: PackageAttrView,
    pub pname: Option<Seq<char>>,
    pub version: Option<Seq<char>>,
    pub profile_name: Option<Seq<char>>,
}

impl View for Package {
    type V = PackageView;

    open spec fn view(&self) -> PackageView {
        PackageView {
            attr: self.attr@,
            pname: opt(self.pname),
            version: opt(self.version),
            profile_name: opt(self.profile_name),
        }
    }
}

impl Default for Package {
    fn default() -> (out: Package)
        ensures
            out@ == (PackageView {
                attr: PackageAttrView::NixPkgs { attr: Seq::empty() },
                pname: None,
                version: None,
                profile_name: None,
            }),
    {
        Package { attr: PackageAttr::default(), pname: None, version: None, profile_name: None }
    }
}

/// The views of a run of packages.
pub open spec fn package_views(s: Seq<Package>) -> Seq<PackageView> {
    s.map_values(|p: Package| p@)
}

/// A package for which the latest revision has another version.
#[derive(Debug, Clone)]
pub struct PackageUpdate {
    pub attr: PackageAttr,
    pub new_version: String,
    pub old_version: String,
}

/// What a `PackageUpdate` holds, as plain values.
pub struct PackageUpdateView {
    pub attr: PackageAttrView,
    pub new_version: Seq<char>,
    pub old_version: Seq<char>,
}

impl View for PackageUpdate {
    type V = PackageUpdateView;

    open spec fn view(&self) -> PackageUpdateView {
        PackageUpdateView {
            attr: self.attr@,
            new_version: self.new_version@,
            old_version: self.old_version@,
        }
    }
}

impl Default for PackageUpdate {
    fn default() -> (out: PackageUpdate)
        ensures
            out@ == (PackageUpdateView {
                attr: PackageAttrView::NixPkgs { attr: Seq::empty() },
                new_version: Seq::empty(),
                old_version: Seq::empty(),
            }),
    {
        PackageUpdate {
            attr: PackageAttr::default(),
            new_version: String::new(),
            old_version: String::new(),
        }
    }
}

/// The views of a run of updates.
pub open spec fn update_views(s: Seq<PackageUpdate>) -> Seq<PackageUpdateView> {
    s.map_values(|p: PackageUpdate| p@)
}

/// Position of the first line that holds `needle`, or the number of lines.
pub open spec fn first_line_with(lines: Seq<Seq<char>>, needle: Seq<char>) -> int {
    first_at(lines.len() as int, |i: int| contains(lines[i], needle), 0)
}

/// Position of the first line that holds `needle`, or the number of lines.
pub fn find_line_with(lines: &Vec<Vec<char>>, needle: &Vec<char>) -> (at: usize)
    ensures
        at == first_line_with(rows(lines@), needle@),
        at <= lines.len(),
        at < lines.len() ==> contains(lines@[at as int]@, needle@),
{
    let mut i: usize = 0;
    while i < lines.len() && !includes(&lines[i], needle)
        invariant
            i <= lines.len(),
            forall|k: int| 0 <= k < i ==> !contains(rows(lines@)[k], needle@),
        decreases lines.len() - i,
    {
        i += 1;
    }
    proof {
        let all = rows(lines@);
        let text = needle@;
        lemma_first_at(all.len() as int, |i: int| contains(all[i], text), 0, i as int);
    }
    i
}

/// The system that `nix show-config` reports: on the first line that holds
/// `system =`, what stands between the first and the second `=`, trimmed.
pub open spec fn nix_arch_of(output: Seq<char>) -> Option<Seq<char>> {
    let lines = split(output, '\n');
    let at = first_line_with(lines, "system ="@);
    if 0 <= at < lines.len() {
        Some(trim(split(lines[at], '=')[1]))
    } else {
        None
    }
}

/// Reads the system out of what `nix show-config` printed.
pub fn nix_arch(output: &str) -> (r: Option<String>)
    ensures
        opt(r) == nix_arch_of(output@),
{
    let lines = split_chars(&to_chars(output), '\n');
    let at = find_line_with(&lines, &to_chars("system ="));
    if at < lines.len() {
        let line = &lines[at];
        let parts = split_chars(line, '=');
        proof {
            assert(rows(lines@)[at as int] == line@);
            reveal_strlit("system =");
            let k = choose|k: int| occurs_at(line@, "system ="@, k);
            assert(line@.subrange(k, k + 8)[7] == '=');
            lemma_split_in_two(line@, '=', k + 7);
            assert(rows(parts@).len() == parts@.len());
            assert(rows(parts@)[1] == parts@[1]@);
        }
        Some(from_chars(&trim_chars(&parts[1])))
    } else {
        None
    }
}

/// The architecture of the system: what the running NixOS system states,
/// else what the configuration of nix states, else what evaluating nixpkgs
/// gives. `None` where none of the three is known.
pub fn get_arch(nixos: Option<String>, nix: Option<String>, eval: Option<String>) -> (r: Option<
    String,
>)
    ensures
        r == if nixos is Some {
            nixos
        } else if nix is Some {
            nix
        } else {
            eval
        },
{
    if nixos.is_some() {
        nixos
    } else if nix.is_some() {
        nix
    } else {
        eval
    }
}

} // verus!
