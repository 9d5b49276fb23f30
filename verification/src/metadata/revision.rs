//! Which revision of nixpkgs the system runs, and which is the latest: read
//! from the flake registry and from the version of the system.

use crate::text::{
    after_last, contains, first_at, from_chars, has_prefix, includes, join, join_range,
    lemma_first_at, lemma_split_in_two, rows, same, slice, split, split_chars, starts_with,
    to_chars,
};
use crate::utils::misc::base_name;
use vstd::prelude::*;

verus! {

/// Why the revision is not known.
#[derive(Clone, Copy, Debug, PartialEq, Eq, Structural)]
pub enum RevisionError {
    /// The registry has no entry for nixpkgs.
    NoNixpkgsFlake,
    /// The entry for nixpkgs has no path.
    InvalidRegistryEntry,
    /// The path of the entry is of no known kind.
    InvalidFlakePath,
    /// The path into the store names no revision.
    NoRev,
}

/// Where the revision comes from.
#[derive(Debug)]
pub enum RevisionSource {
    /// The head of this branch of nixpkgs, which the hosting service knows.
    Branch(String),
    /// This revision.
    Revision(String),
}

/// What a `RevisionSource` holds, as plain values.
pub enum RevisionSourceView {
    Branch(Seq<char>),
    Revision(Seq<char>),
}

impl View for RevisionSource {
    type V = RevisionSourceView;

    open spec fn view(&self) -> RevisionSourceView {
        match self {
            RevisionSource::Branch(b) => RevisionSourceView::Branch(b@),
            RevisionSource::Revision(r) => RevisionSourceView::Revision(r@),
        }
    }
}

/// Whether a line of the registry is the entry for nixpkgs: the global
/// one, or with `system` also the system's.
pub open spec fn is_nixpkgs_entry(line: Seq<char>, system: bool) -> bool {
    contains(line, "global flake:nixpkgs"@) || (system && contains(
        line,
        "system flake:nixpkgs"@,
    ))
}

/// Position of the first entry for nixpkgs, or the number of lines.
pub open spec fn first_entry(lines: Seq<Seq<char>>, system: bool) -> int {
    first_at(lines.len() as int, |i: int| is_nixpkgs_entry(lines[i], system), 0)
}

/// Position of the first piece that begins with `rev=`, or the number of
/// pieces.
pub open spec fn first_rev(pieces: Seq<Seq<char>>) -> int {
    first_at(pieces.len() as int, |i: int| has_prefix(pieces[i], "rev="@), 0)
}

/// The revision named in a path into the store: of the pieces between `&`,
/// the first that begins with `rev=` gives it, between its first and its
/// second `=`.
pub open spec fn store_revision(path: Seq<char>) -> Result<Seq<char>, RevisionError> {
    let pieces = split(path, '&');
    let at = first_rev(pieces);
    if 0 <= at < pieces.len() {
        Ok(split(pieces[at], '=')[1])
    } else {
        Err(RevisionError::NoRev)
    }
}

/// Where a registry path leads: a path on GitHub to the branch after its
/// last `/`; with `system`, a path into the store to the revision it
/// names.
pub open spec fn path_source(path: Seq<char>, system: bool) -> Result<
    RevisionSourceView,
    RevisionError,
> {
    if has_prefix(path, "github:NixOS/nixpkgs/"@) {
        Ok(RevisionSourceView::Branch(base_name(path)))
    } else if system && has_prefix(path, "path:/nix/store/"@) {
        match store_revision(path) {
            Ok(r) => Ok(RevisionSourceView::Revision(r)),
            Err(e) => Err(e),
        }
    } else {
        Err(RevisionError::InvalidFlakePath)
    }
}

/// Where the registry says nixpkgs comes from: the path is the third piece,
/// between single spaces, of the first entry for nixpkgs.
pub open spec fn registry_source(output: Seq<char>, system: bool) -> Result<
    RevisionSourceView,
    RevisionError,
> {
    let lines = split(output, '\n');
    let at = first_entry(lines, system);
    if 0 <= at < lines.len() {
        let pieces = split(lines[at], ' ');
        if pieces.len() > 2 {
            path_source(pieces[2], system)
        } else {
            Err(RevisionError::InvalidRegistryEntry)
        }
    } else {
        Err(RevisionError::NoNixpkgsFlake)
    }
}

fn revision_in(path: &Vec<char>) -> (r: Result<String, RevisionError>)
    ensures
        match r {
            Ok(s) => store_revision(path@) == Ok::<Seq<char>, RevisionError>(s@),
            Err(e) => store_revision(path@) == Err::<Seq<char>, RevisionError>(e),
        },
{
    let pieces = split_chars(path, '&');
    let rev = to_chars("rev=");
    let mut i: usize = 0;
    while i < pieces.len() && !starts_with(&pieces[i], &rev)
        invariant
            i <= pieces.len(),
            rev@ == "rev="@,
            forall|k: int| 0 <= k < i ==> !has_prefix(rows(pieces@)[k], "rev="@),
        decreases pieces.len() - i,
    {
        proof {
            assert(rows(pieces@)[i as int] == pieces@[i as int]@);
        }
        i += 1;
    }
    proof {
        if i < pieces.len() {
            assert(rows(pieces@)[i as int] == pieces@[i as int]@);
        }
        let all = rows(pieces@);
        lemma_first_at(all.len() as int, |i: int| has_prefix(all[i], "rev="@), 0, i as int);
    }
    if i == pieces.len() {
        return Err(RevisionError::NoRev);
    }
    let piece = &pieces[i];
    let sides = split_chars(piece, '=');
    proof {
        reveal_strlit("rev=");
        assert(piece@.take(4)[3] == '=');
        lemma_split_in_two(piece@, '=', 3);
        assert(rows(sides@).len() == sides@.len());
        assert(rows(sides@)[1] == sides@[1]@);
    }
    Ok(from_chars(&sides[1]))
}

fn source_of_path(path: &Vec<char>, system: bool) -> (r: Result<RevisionSource, RevisionError>)
    ensures
        match r {
            Ok(s) => path_source(path@, system) == Ok::<RevisionSourceView, RevisionError>(s@),
            Err(e) => path_source(path@, system) == Err::<RevisionSourceView, RevisionError>(e),
        },
{
    if starts_with(path, &to_chars("github:NixOS/nixpkgs/")) {
        let start = after_last(path, '/');
        let branch = slice(path, start, path.len());
        proof {
            assert(branch@ =~= base_name(path@));
        }
        Ok(RevisionSource::Branch(from_chars(&branch)))
    } else if system && starts_with(path, &to_chars("path:/nix/store/")) {
        match revision_in(path) {
            Ok(r) => Ok(RevisionSource::Revision(r)),
            Err(e) => Err(e),
        }
    } else {
        Err(RevisionError::InvalidFlakePath)
    }
}

fn source(output: &str, system: bool) -> (r: Result<RevisionSource, RevisionError>)
    ensures
        match r {
            Ok(s) => registry_source(output@, system) == Ok::<RevisionSourceView, RevisionError>(
                s@,
            ),
            Err(e) => registry_source(output@, system) == Err::<RevisionSourceView, RevisionError>(
                e,
            ),
        },
{
    let lines = split_chars(&to_chars(output), '\n');
    let global = to_chars("global flake:nixpkgs");
    let local = to_chars("system flake:nixpkgs");
    let mut i: usize = 0;
    while i < lines.len() && !(includes(&lines[i], &global) || (system && includes(
        &lines[i],
        &local,
    )))
        invariant
            i <= lines.len(),
            global@ == "global flake:nixpkgs"@,
            local@ == "system flake:nixpkgs"@,
            forall|k: int| 0 <= k < i ==> !is_nixpkgs_entry(rows(lines@)[k], system),
        decreases lines.len() - i,
    {
        proof {
            assert(rows(lines@)[i as int] == lines@[i as int]@);
        }
        i += 1;
    }
    proof {
        if i < lines.len() {
            assert(rows(lines@)[i as int] == lines@[i as int]@);
        }
        let all = rows(lines@);
        lemma_first_at(all.len() as int, |i: int| is_nixpkgs_entry(all[i], system), 0, i as int);
    }
    if i == lines.len() {
        return Err(RevisionError::NoNixpkgsFlake);
    }
    let pieces = split_chars(&lines[i], ' ');
    if pieces.len() > 2 {
        proof {
            assert(rows(pieces@)[2] == pieces@[2]@);
        }
        source_of_path(&pieces[2], system)
    } else {
        Err(RevisionError::InvalidRegistryEntry)
    }
}

/// Where the revision of nixpkgs comes from on a system that is not NixOS,
/// from what `nix registry list` printed: the global entry for nixpkgs,
/// which must lead to GitHub.
pub fn get_revision(registry: &str) -> (r: Result<RevisionSource, RevisionError>)
    ensures
        match r {
            Ok(s) => registry_source(registry@, false) == Ok::<
                RevisionSourceView,
                RevisionError,
            >(s@),
            Err(e) => registry_source(registry@, false) == Err::<
                RevisionSourceView,
                RevisionError,
            >(e),
        },
{
    source(registry, false)
}

/// Where the revision of nixpkgs that profiles are installed from comes
/// from: the global or the system's entry for nixpkgs, which leads to
/// GitHub or into the store.
pub fn get_profile_revision(registry: &str) -> (r: Result<RevisionSource, RevisionError>)
    ensures
        match r {
            Ok(s) => registry_source(registry@, true) == Ok::<RevisionSourceView, RevisionError>(
                s@,
            ),
            Err(e) => registry_source(registry@, true) == Err::<
                RevisionSourceView,
                RevisionError,
            >(e),
        },
{
    source(registry, true)
}

/// The address that tells the head of a branch of nixpkgs.
pub open spec fn commit_url_of(branch: Seq<char>) -> Seq<char> {
    "https://api.github.com/repos/NixOS/nixpkgs/commits/"@ + branch
}

/// The address that tells the head of a branch of nixpkgs.
pub fn commit_url(branch: &str) -> (out: String)
    ensures
        out@ == commit_url_of(branch@),
{
    let mut out = "https://api.github.com/repos/NixOS/nixpkgs/commits/".to_owned();
    out.append(branch);
    out
}

/// The first two pieces, between dots, of a version of NixOS.
pub open spec fn release_number(version: Seq<char>) -> Seq<char> {
    let pieces = split(version, '.');
    if pieces.len() > 2 {
        join(pieces.take(2), '.')
    } else {
        join(pieces, '.')
    }
}

/// The release of a version of NixOS: its release number, and `unstable`
/// for the release number `24.05`.
pub open spec fn release_of(version: Seq<char>) -> Seq<char> {
    if release_number(version) == "24.05"@ {
        "unstable"@
    } else {
        release_number(version)
    }
}

/// The branches whose head may be the latest revision, in the order in
/// which they are tried: on NixOS the branch of the system's release and
/// then `nixos-unstable`, elsewhere `nixpkgs-unstable`.
pub open spec fn branches_of(nixos_version: Option<Seq<char>>) -> Seq<Seq<char>> {
    match nixos_version {
        Some(v) => seq!["nixos-"@ + release_of(v), "nixos-unstable"@],
        None => seq!["nixpkgs-unstable"@],
    }
}

/// Whether the answer for a branch settles the question: the answer for
/// the last branch does whatever it is, an earlier one only where it is a
/// success.
pub fn settles(tried: usize, branches: usize, success: bool) -> (b: bool)
    ensures
        b == (success || tried + 1 >= branches),
{
    success || branches == 0 || tried >= branches - 1
}

/// The release of a version of NixOS.
pub fn release(version: &str) -> (out: String)
    ensures
        out@ == release_of(version@),
{
    let pieces = split_chars(&to_chars(version), '.');
    let n: usize = if pieces.len() > 2 {
        2
    } else {
        pieces.len()
    };
    let number = join_range(&pieces, 0, n, '.');
    proof {
        assert(rows(pieces@).subrange(0, n as int) =~= if pieces@.len() > 2 {
            rows(pieces@).take(2)
        } else {
            rows(pieces@)
        });
    }
    if same(&number, &to_chars("24.05")) {
        "unstable".to_owned()
    } else {
        from_chars(&number)
    }
}

/// The branches to ask for the latest revision, in order; `nixos_version`
/// is the version of the system where it runs NixOS.
pub fn get_latest_nixpkgs_revision(nixos_version: Option<&str>) -> (out: Vec<String>)
    ensures
        crate::text::strs(out@) == branches_of(
            match nixos_version {
                Some(v) => Some(v@),
                None => None,
            },
        ),
{
    let mut out: Vec<String> = Vec::new();
    match nixos_version {
        Some(v) => {
            let mut branch = "nixos-".to_owned();
            branch.append(release(v).as_str());
            crate::command::push_arg(&mut out, branch.as_str());
            crate::command::push_arg(&mut out, "nixos-unstable");
            proof {
                assert(crate::text::strs(out@) =~= seq![
                    "nixos-"@ + release_of(v@),
                    "nixos-unstable"@,
                ]);
            }
        },
        None => {
            crate::command::push_arg(&mut out, "nixpkgs-unstable");
            proof {
                assert(crate::text::strs(out@) =~= seq!["nixpkgs-unstable"@]);
            }
        },
    }
    out
}

} // verus!
