//! Names in store paths: a store path ends in `<hash>-<name>`, and the name
//! is a package name, mostly followed by a version and an output.

use crate::text::{
    after_last, find_from, first_at, from_chars, index_of, is_numeric, join, join_range, last_index_of,
    lemma_first_at, lemma_join_split, numeric_char, opt, rows, same, slice, split, split_chars, strip_prefix,
    strip_suffix, to_chars, without_prefix, without_suffix,
};
use crate::{
    update_views, Package, PackageAttr, PackageAttrView, PackageUpdate, PackageUpdateView,
    PackageView,
};
use vstd::prelude::*;

verus! {

/// Why a store path or a name in it cannot be read.
#[derive(Clone, Copy, Debug, PartialEq, Eq, Structural)]
pub enum StorePathError {
    /// The name does not end in the version it was said to have.
    NoName,
    /// The name does not begin with the package name it was said to have.
    NoVersion,
    /// The name has an empty piece between two hyphens before its version.
    EmptySegment,
}

/// What follows the last `/` of a path.
pub open spec fn base_name(path: Seq<char>) -> Seq<char> {
    path.skip(last_index_of(path, '/') + 1)
}

/// The name in a store path: what follows the first hyphen of its last
/// component, and nothing where that has no hyphen.
pub open spec fn store_name(path: Seq<char>) -> Seq<char> {
    let base = base_name(path);
    let i = index_of(base, '-');
    if 0 <= i < base.len() {
        base.skip(i + 1)
    } else {
        Seq::empty()
    }
}

/// Whether a piece of a name begins its version: its first character is
/// numeric, or it is the word `unstable` or `nightly`.
pub open spec fn starts_version(piece: Seq<char>) -> bool {
    piece.len() > 0 && (numeric_char(piece[0]) || piece == "unstable"@ || piece == "nightly"@)
}

/// The mark of the piece at position `i`; a piece without a mark has none.
pub open spec fn marked(marks: Seq<bool>, i: int) -> bool {
    0 <= i < marks.len() && marks[i]
}

/// Whether the piece at position `i` ends the package name: it is empty
/// or marked.
pub open spec fn stops_at(pieces: Seq<Seq<char>>, marks: Seq<bool>, i: int) -> bool {
    pieces[i].len() == 0 || marked(marks, i)
}

/// Position of the first piece that is empty or marked, or the number of
/// pieces.
pub open spec fn first_stop(pieces: Seq<Seq<char>>, marks: Seq<bool>) -> int {
    first_at(pieces.len() as int, |i: int| stops_at(pieces, marks, i), 0)
}

/// `s` without the ending `p`, or `s` itself where it has no such ending.
pub open spec fn dropped(s: Seq<char>, p: Seq<char>) -> Seq<char> {
    match without_suffix(s, p) {
        Some(t) => t,
        None => s,
    }
}

/// A version without the name of an output at its end: `-bin`, `-dev`,
/// `-out` and `-debug` are taken off in this order, each where it then
/// stands at the end.
pub open spec fn without_outputs(version: Seq<char>) -> Seq<char> {
    dropped(dropped(dropped(dropped(version, "-bin"@), "-dev"@), "-out"@), "-debug"@)
}

/// A name cut into package name and version at its first marked piece.
/// Without a marked piece the whole name is the package name. An empty
/// piece before the first marked one is an error.
pub open spec fn divided(pieces: Seq<Seq<char>>, marks: Seq<bool>) -> Result<
    (Seq<char>, Option<Seq<char>>),
    StorePathError,
> {
    let at = first_stop(pieces, marks);
    if 0 <= at < pieces.len() {
        if pieces[at].len() == 0 {
            Err(StorePathError::EmptySegment)
        } else {
            Ok(
                (
                    join(pieces.take(at), '-'),
                    Some(without_outputs(join(pieces.skip(at), '-'))),
                ),
            )
        }
    } else {
        Ok((join(pieces, '-'), None))
    }
}

/// The package name and version in a name such as `hello-1.2.3`: the
/// pieces between hyphens before the first piece that begins a version,
/// and the pieces from there on without the name of an output.
pub open spec fn pname_version(name: Seq<char>) -> Result<
    (Seq<char>, Option<Seq<char>>),
    StorePathError,
> {
    let pieces = split(name, '-');
    divided(pieces, pieces.map_values(|p: Seq<char>| starts_version(p)))
}

/// The package name in a store path whose version is known: the name
/// without `-` and the version at its end.
pub open spec fn pname_of(path: Seq<char>, version: Option<Seq<char>>) -> Result<
    Seq<char>,
    StorePathError,
> {
    match version {
        Some(v) => match without_suffix(store_name(path), seq!['-'] + v) {
            Some(n) => Ok(n),
            None => Err(StorePathError::NoName),
        },
        None => Ok(store_name(path)),
    }
}

/// The version in a store path whose package name is known: the name
/// without the package name and `-` at its beginning.
pub open spec fn version_of(path: Seq<char>, pname: Seq<char>) -> Result<
    Seq<char>,
    StorePathError,
> {
    match without_prefix(store_name(path), pname + seq!['-']) {
        Some(v) => Ok(v),
        None => Err(StorePathError::NoVersion),
    }
}

/// The view of a pair of package name and version.
pub open spec fn pair_view(r: Result<(String, Option<String>), StorePathError>) -> Result<
    (Seq<char>, Option<Seq<char>>),
    StorePathError,
> {
    match r {
        Ok((p, v)) => Ok((p@, opt(v))),
        Err(e) => Err(e),
    }
}

/// The view of a text or the error in its place.
pub open spec fn text_view(r: Result<String, StorePathError>) -> Result<
    Seq<char>,
    StorePathError,
> {
    match r {
        Ok(s) => Ok(s@),
        Err(e) => Err(e),
    }
}

fn chars_of_name(path: &str) -> (out: Vec<char>)
    ensures
        out@ == store_name(path@),
{
    let chars = to_chars(path);
    let start = after_last(&chars, '/');
    let base = slice(&chars, start, chars.len());
    proof {
        assert(base@ =~= base_name(path@));
        assert(base@.skip(0) =~= base@);
    }
    let at = find_from(&base, '-', 0);
    if at < base.len() {
        let name = slice(&base, at + 1, base.len());
        proof {
            assert(name@ =~= base@.skip(at + 1));
        }
        name
    } else {
        Vec::new()
    }
}

/// The name in a store path.
pub fn get_name_from_storepath(path: &str) -> (r: Result<String, StorePathError>)
    ensures
        text_view(r) == Ok::<Seq<char>, StorePathError>(store_name(path@)),
{
    Ok(from_chars(&chars_of_name(path)))
}

fn drop_ending(s: Vec<char>, ending: &str) -> (out: Vec<char>)
    ensures
        out@ == dropped(s@, ending@),
{
    match strip_suffix(&s, &to_chars(ending)) {
        Some(t) => t,
        None => s,
    }
}

/// Cuts a name, given as its pieces between hyphens, at its first marked
/// piece; `marks` tells of each piece whether it begins a version.
pub fn divide(pieces: &Vec<Vec<char>>, marks: &Vec<bool>) -> (r: Result<
    (String, Option<String>),
    StorePathError,
>)
    ensures
        pair_view(r) == divided(rows(pieces@), marks@),
{
    let mut at: usize = 0;
    while at < pieces.len() && pieces[at].len() > 0 && !(at < marks.len() && marks[at])
        invariant
            at <= pieces.len(),
            forall|k: int| 0 <= k < at ==> !stops_at(rows(pieces@), marks@, k),
        decreases pieces.len() - at,
    {
        proof {
            assert(rows(pieces@)[at as int] == pieces@[at as int]@);
        }
        at += 1;
    }
    proof {
        if at < pieces.len() {
            assert(rows(pieces@)[at as int] == pieces@[at as int]@);
        }
        let all = rows(pieces@);
        let flags = marks@;
        lemma_first_at(all.len() as int, |i: int| stops_at(all, flags, i), 0, at as int);
    }
    if at < pieces.len() {
        if pieces[at].len() == 0 {
            return Err(StorePathError::EmptySegment);
        }
        let pname = join_range(pieces, 0, at, '-');
        let version = join_range(pieces, at, pieces.len(), '-');
        proof {
            assert(rows(pieces@).take(at as int) =~= rows(pieces@).subrange(0, at as int));
            assert(rows(pieces@).skip(at as int) =~= rows(pieces@).subrange(
                at as int,
                pieces@.len() as int,
            ));
        }
        let version = drop_ending(version, "-bin");
        let version = drop_ending(version, "-dev");
        let version = drop_ending(version, "-out");
        let version = drop_ending(version, "-debug");
        Ok((from_chars(&pname), Some(from_chars(&version))))
    } else {
        let pname = join_range(pieces, 0, pieces.len(), '-');
        proof {
            assert(rows(pieces@).subrange(0, pieces@.len() as int) =~= rows(pieces@));
        }
        Ok((from_chars(&pname), None))
    }
}

fn begins_version(piece: &Vec<char>) -> (b: bool)
    ensures
        b == starts_version(piece@),
{
    piece.len() > 0 && (is_numeric(piece[0]) || same(piece, &to_chars("unstable")) || same(
        piece,
        &to_chars("nightly"),
    ))
}

fn pname_version_chars(name: &Vec<char>) -> (r: Result<(String, Option<String>), StorePathError>)
    ensures
        pair_view(r) == pname_version(name@),
{
    let pieces = split_chars(name, '-');
    let mut marks: Vec<bool> = Vec::new();
    let ghost want = rows(pieces@).map_values(|p: Seq<char>| starts_version(p));
    let mut i: usize = 0;
    while i < pieces.len()
        invariant
            i <= pieces.len(),
            want == rows(pieces@).map_values(|p: Seq<char>| starts_version(p)),
            marks@ == want.take(i as int),
        decreases pieces.len() - i,
    {
        let m = begins_version(&pieces[i]);
        marks.push(m);
        proof {
            assert(rows(pieces@)[i as int] == pieces@[i as int]@);
            assert(want.take(i + 1) =~= want.take(i as int).push(want[i as int]));
        }
        i += 1;
    }
    proof {
        assert(want.take(pieces@.len() as int) =~= want);
    }
    divide(&pieces, &marks)
}

/// The package name and the version in a name such as `hello-1.2.3`.
pub fn get_pname_version(name: &str) -> (r: Result<(String, Option<String>), StorePathError>)
    ensures
        pair_view(r) == pname_version(name@),
{
    pname_version_chars(&to_chars(name))
}

/// The package name and the version in the name of a store path.
pub fn get_pname_version_from_storepath(path: &str) -> (r: Result<
    (String, Option<String>),
    StorePathError,
>)
    ensures
        pair_view(r) == pname_version(store_name(path@)),
{
    pname_version_chars(&chars_of_name(path))
}

/// The package name in a store path whose version is known.
pub fn get_pname_from_storepath(path: &str, version: Option<String>) -> (r: Result<
    String,
    StorePathError,
>)
    ensures
        text_view(r) == pname_of(path@, opt(version)),
{
    let name = chars_of_name(path);
    match version {
        Some(v) => {
            let mut ending: Vec<char> = Vec::new();
            ending.push('-');
            let ending = crate::text::chain(&ending, &to_chars(v.as_str()));
            match strip_suffix(&name, &ending) {
                Some(n) => Ok(from_chars(&n)),
                None => Err(StorePathError::NoName),
            }
        },
        None => Ok(from_chars(&name)),
    }
}

/// The version in a store path whose package name is known.
pub fn get_version_from_storepath(path: &str, pname: &str) -> (r: Result<String, StorePathError>)
    ensures
        text_view(r) == version_of(path@, pname@),
{
    let name = chars_of_name(path);
    let mut beginning = to_chars(pname);
    beginning.push('-');
    proof {
        assert(beginning@ =~= pname@ + seq!['-']);
    }
    match strip_prefix(&name, &beginning) {
        Some(v) => Ok(from_chars(&v)),
        None => Err(StorePathError::NoVersion),
    }
}

/// The row found for the package at position `i`: its package name and
/// version in the latest revision. A package without a row has none.
pub open spec fn row_at(found: Seq<Option<(String, String)>>, i: int) -> Option<
    (Seq<char>, Seq<char>),
> {
    if 0 <= i < found.len() {
        match found[i] {
            Some((pname, version)) => Some((pname@, version@)),
            None => None,
        }
    } else {
        None
    }
}

/// The update that a row means for an installed package. Only a nixpkgs
/// package with a row can have one. The row's name and version are read as
/// a store name is; an update is due where that gives a version that is
/// not empty and differs from the installed one, or none is installed.
pub open spec fn update_of(pkg: PackageView, row: Option<(Seq<char>, Seq<char>)>) -> Option<
    PackageUpdateView,
> {
    match (pkg.attr, row) {
        (PackageAttrView::NixPkgs { attr }, Some((pname, version))) => match pname_version(
            pname + seq!['-'] + version,
        ) {
            Ok((_, Some(v))) => if v.len() > 0 && pkg.version != Some(v) {
                Some(
                    PackageUpdateView {
                        attr: pkg.attr,
                        new_version: v,
                        old_version: match pkg.version {
                            Some(old) => old,
                            None => Seq::empty(),
                        },
                    },
                )
            } else {
                None
            },
            _ => None,
        },
        _ => None,
    }
}

/// The update due for each installed package, where one is.
pub open spec fn each_update(pkgs: Seq<PackageView>, found: Seq<Option<(String, String)>>) -> Seq<
    Option<PackageUpdateView>,
> {
    Seq::new(pkgs.len(), |i: int| update_of(pkgs[i], row_at(found, i)))
}

/// The updates due for the installed packages, in their order.
pub open spec fn updates_of(pkgs: Seq<PackageView>, found: Seq<Option<(String, String)>>) -> Seq<
    PackageUpdateView,
> {
    each_update(pkgs, found).filter_map(|u: Option<PackageUpdateView>| u)
}

fn update_for(pkg: Package, row: &Option<(String, String)>) -> (r: Option<PackageUpdate>)
    ensures
        match r {
            Some(u) => update_of(
                pkg@,
                match *row {
                    Some((p, v)) => Some((p@, v@)),
                    None => None,
                },
            ) == Some(u@),
            None => update_of(
                pkg@,
                match *row {
                    Some((p, v)) => Some((p@, v@)),
                    None => None,
                },
            ) is None,
        },
{
    let Package { attr, pname: _, version: installed, profile_name: _ } = pkg;
    match (&attr, row) {
        (PackageAttr::NixPkgs { attr: _ }, Some((pname, version))) => {
            let mut name = to_chars(pname.as_str());
            name.push('-');
            let name = crate::text::chain(&name, &to_chars(version.as_str()));
            proof {
                assert(name@ =~= pname@ + seq!['-'] + version@);
            }
            match pname_version_chars(&name) {
                Ok((_, Some(v))) => {
                    if v.as_str().unicode_len() == 0 {
                        return None;
                    }
                    let differs = match &installed {
                        Some(old) => !same(&to_chars(old.as_str()), &to_chars(v.as_str())),
                        None => true,
                    };
                    if differs {
                        let old_version = match installed {
                            Some(old) => old,
                            None => String::new(),
                        };
                        Some(PackageUpdate { attr, new_version: v, old_version })
                    } else {
                        None
                    }
                },
                _ => None,
            }
        },
        _ => None,
    }
}

/// The updates due for the installed packages, given for each the row that
/// the latest revision holds under its attribute.
pub fn updatable(installed: Vec<Package>, found: &Vec<Option<(String, String)>>) -> (out: Vec<
    PackageUpdate,
>)
    ensures
        update_views(out@) == updates_of(crate::package_views(installed@), found@),
{
    let ghost pkgs = crate::package_views(installed@);
    let ghost each = each_update(pkgs, found@);
    let ghost pick = |u: Option<PackageUpdateView>| u;
    let mut out: Vec<PackageUpdate> = Vec::new();
    let mut i: usize = 0;
    let none: Option<(String, String)> = None;
    let n: usize = installed.len();
    proof {
        assert(each.take(0) =~= Seq::empty());
        assert(update_views(out@) =~= Seq::empty());
    }
    for pkg in it: installed
        invariant
            it.seq().len() == n,
            it.seq().len() == pkgs.len(),
            pkgs == crate::package_views(it.seq()),
            each == each_update(pkgs, found@),
            pick == (|u: Option<PackageUpdateView>| u),
            i == it.index(),
            none is None,
            update_views(out@) == each.take(i as int).filter_map(pick),
    {
        let ghost before = update_views(out@);
        proof {
            assert(pkgs[i as int] == pkg@);
            each.lemma_filter_map_take_succ(pick, i as int);
        }
        let row = if i < found.len() {
            &found[i]
        } else {
            &none
        };
        match update_for(pkg, row) {
            Some(u) => {
                out.push(u);
                proof {
                    assert(update_views(out@) =~= before + seq![u@]);
                }
            },
            None => {
                proof {
                    assert(before + Seq::<PackageUpdateView>::empty() =~= before);
                }
            },
        }
        i += 1;
    }
    proof {
        assert(each.take(pkgs.len() as int) =~= each);
    }
    out
}

/// A name without a piece that begins a version is a package name as a
/// whole.
pub proof fn lemma_name_without_version(name: Seq<char>)
    requires
        pname_version(name) matches Ok((_, None)),
    ensures
        pname_version(name) == Ok::<(Seq<char>, Option<Seq<char>>), StorePathError>((name, None)),
{
    lemma_join_split(name, '-');
}

} // verus!
