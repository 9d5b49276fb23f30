//! Making the record store of a release: which release is the latest, where
//! its files are, and how the fields of a package's metadata are written
//! into a row.

use crate::order::{comes_before, precedes};
use crate::text::{
    after_last, chain, contains, find_from, from_chars, has_prefix, includes, index_of,
    lemma_stripped, opt, rows, same, slice, starts_with, strip_prefix, stripped, strs, to_chars,
    to_rows, trim, trim_chars, without_prefix,
};
use crate::utils::misc::base_name;
use vstd::prelude::*;

verus! {

/// One object of a listing of the releases' bucket.
#[derive(Debug, Clone)]
pub struct S3Content {
    pub key: String,
    pub last_modified: String,
}

/// Position of the object modified last, the later of two modified at the
/// same time; `-1` where there is no object.
pub open spec fn newest(objects: Seq<S3Content>) -> int
    decreases objects.len(),
{
    if objects.len() == 0 {
        -1
    } else {
        let before = newest(objects.drop_last());
        if before >= 0 && precedes(
            objects.last().last_modified@,
            objects[before].last_modified@,
        ) {
            before
        } else {
            objects.len() - 1
        }
    }
}

/// `s` without the `/` at its ends.
pub open spec fn without_slashes(s: Seq<char>) -> Seq<char> {
    stripped(s, |c: char| c == '/')
}

/// The name of a release: the last component of its key, the `/` at the
/// key's ends aside.
pub open spec fn release_name(key: Seq<char>) -> Seq<char> {
    base_name(without_slashes(key))
}

/// The name of the latest release among the objects of a channel.
pub open spec fn latest_release_of(objects: Seq<S3Content>) -> Option<Seq<char>> {
    let at = newest(objects);
    if 0 <= at < objects.len() {
        Some(release_name(objects[at].key@))
    } else {
        None
    }
}

proof fn lemma_newest_bounds(objects: Seq<S3Content>)
    ensures
        -1 <= newest(objects) < objects.len(),
        objects.len() > 0 ==> newest(objects) >= 0,
    decreases objects.len(),
{
    if objects.len() > 0 {
        lemma_newest_bounds(objects.drop_last());
    }
}

/// No object was modified after the newest one, and every object behind it
/// in the listing was modified before it.
pub proof fn lemma_newest_is_latest(objects: Seq<S3Content>, j: int)
    requires
        0 <= j < objects.len(),
    ensures
        0 <= newest(objects) < objects.len(),
        !precedes(objects[newest(objects)].last_modified@, objects[j].last_modified@),
        j > newest(objects) ==> precedes(
            objects[j].last_modified@,
            objects[newest(objects)].last_modified@,
        ),
    decreases objects.len(),
{
    lemma_newest_bounds(objects);
    let rest = objects.drop_last();
    lemma_newest_bounds(rest);
    let before = newest(rest);
    let last = objects.last().last_modified@;
    if rest.len() > 0 {
        if j < rest.len() {
            lemma_newest_is_latest(rest, j);
            assert(rest[j] == objects[j]);
            assert(rest[before] == objects[before]);
            if !precedes(last, objects[before].last_modified@) {
                if precedes(last, objects[j].last_modified@) {
                    // The last object would then come before the newest of the rest.
                    if precedes(objects[j].last_modified@, objects[before].last_modified@) {
                        crate::order::lemma_precedes_transitive(
                            last,
                            objects[j].last_modified@,
                            objects[before].last_modified@,
                        );
                    } else {
                        crate::order::lemma_precedes_total(
                            objects[j].last_modified@,
                            objects[before].last_modified@,
                        );
                    }
                }
            }
        } else {
            assert(rest[before] == objects[before]);
            crate::order::lemma_precedes_asymmetric(last, last);
            crate::order::lemma_precedes_asymmetric(last, objects[before].last_modified@);
        }
    } else {
        crate::order::lemma_precedes_asymmetric(last, last);
    }
}

fn strip_slashes(s: &Vec<char>) -> (out: Vec<char>)
    ensures
        out@ == without_slashes(s@),
{
    let mut a: usize = 0;
    while a < s.len() && s[a] == '/'
        invariant
            a <= s.len(),
            forall|k: int| 0 <= k < a ==> s@[k] == '/',
        decreases s.len() - a,
    {
        a += 1;
    }
    let mut b: usize = s.len();
    while b > a && s[b - 1] == '/'
        invariant
            a <= b <= s.len(),
            forall|k: int| b <= k < s.len() ==> s@[k] == '/',
        decreases b,
    {
        b -= 1;
    }
    proof {
        lemma_stripped(s@, |c: char| c == '/', a as int, b as int);
    }
    slice(s, a, b)
}

/// The name of the latest release among the objects that the listing of a
/// channel holds; none where it holds no object.
pub fn resolve_latest_release(objects: &Vec<S3Content>) -> (r: Option<String>)
    ensures
        opt(r) == latest_release_of(objects@),
{
    if objects.len() == 0 {
        return None;
    }
    let mut best: usize = 0;
    let mut i: usize = 1;
    proof {
        let one = objects@.take(1);
        assert(one.drop_last() =~= Seq::empty());
        assert(newest(one.drop_last()) == -1);
        assert(newest(one) == 0);
    }
    while i < objects.len()
        invariant
            1 <= i <= objects.len(),
            best < i,
            best == newest(objects@.take(i as int)),
        decreases objects.len() - i,
    {
        proof {
            assert(objects@.take(i + 1).drop_last() =~= objects@.take(i as int));
            assert(objects@.take(i + 1).last() == objects@[i as int]);
            assert(objects@.take(i as int)[best as int] == objects@[best as int]);
        }
        let older = comes_before(
            &to_chars(objects[i].last_modified.as_str()),
            &to_chars(objects[best].last_modified.as_str()),
        );
        if !older {
            best = i;
        }
        i += 1;
    }
    proof {
        assert(objects@.take(objects@.len() as int) =~= objects@);
    }
    let key = strip_slashes(&to_chars(objects[best].key.as_str()));
    let start = after_last(&key, '/');
    let name = slice(&key, start, key.len());
    proof {
        assert(name@ =~= base_name(key@));
    }
    Some(from_chars(&name))
}

/// The marker of the next page of a listing: none after a page that is not
/// truncated; else the key of the page's last object, or the marker as it
/// was where the page holds no object.
pub fn next_marker(marker: String, last_key: Option<String>, truncated: bool) -> (r: Option<
    String,
>)
    ensures
        r == if !truncated {
            None
        } else if last_key is Some {
            last_key
        } else {
            Some(marker)
        },
{
    if !truncated {
        None
    } else if last_key.is_some() {
        last_key
    } else {
        Some(marker)
    }
}

/// The address of a file of a release.
pub open spec fn release_file(channel: Seq<char>, release: Seq<char>, file: Seq<char>) -> Seq<
    char,
> {
    "https://releases.nixos.org/"@ + channel + seq!['/'] + release + seq!['/'] + file
}

/// The address of the listing of a channel's releases, from a marker on.
pub open spec fn listing_of(channel: Seq<char>, marker: Seq<char>) -> Seq<char> {
    "https://nix-releases.s3.amazonaws.com/?delimiter=/&prefix="@ + channel + "/&marker="@
        + marker
}

fn release_url(channel: &str, release: &str, file: &str) -> (out: String)
    ensures
        out@ == release_file(channel@, release@, file@),
{
    let mut out = "https://releases.nixos.org/".to_owned();
    out.append(channel);
    out.push('/');
    out.append(release);
    out.push('/');
    out.append(file);
    proof {
        assert(out@ =~= release_file(channel@, release@, file@));
    }
    out
}

/// The address of the packages of a release.
pub fn packages_url(channel: &str, release: &str) -> (out: String)
    ensures
        out@ == release_file(channel@, release@, "packages.json.br"@),
{
    release_url(channel, release, "packages.json.br")
}

/// The address of the options of a release.
pub fn options_url(channel: &str, release: &str) -> (out: String)
    ensures
        out@ == release_file(channel@, release@, "options.json.br"@),
{
    release_url(channel, release, "options.json.br")
}

/// The address of the revision of a release.
pub fn git_revision_url(channel: &str, release: &str) -> (out: String)
    ensures
        out@ == release_file(channel@, release@, "git-revision"@),
{
    release_url(channel, release, "git-revision")
}

/// The address of the listing of a channel's releases, from a marker on.
pub fn listing_url(channel: &str, marker: &str) -> (out: String)
    ensures
        out@ == listing_of(channel@, marker@),
{
    let mut out = "https://nix-releases.s3.amazonaws.com/?delimiter=/&prefix=".to_owned();
    out.append(channel);
    out.append("/&marker=");
    out.append(marker);
    out
}

/// The revision that a release states it was made from: the text it
/// answers with, without the white space at its ends.
pub fn git_revision(answer: &str) -> (out: String)
    ensures
        out@ == trim(answer@),
{
    from_chars(&trim_chars(&to_chars(answer)))
}

/// Where the options of home-manager are, given what building its
/// documentation printed: in the directory that the output names, white
/// space at its ends aside.
pub fn hm_options_path(output: &str) -> (out: String)
    ensures
        out@ == trim(output@) + "/share/doc/home-manager/options.json"@,
{
    let mut out = from_chars(&trim_chars(&to_chars(output)));
    out.append("/share/doc/home-manager/options.json");
    out
}

/// The record store of a revision in a directory.
pub open spec fn store_in(dir: Seq<char>, rev: Seq<char>) -> Seq<char> {
    dir + seq!['/'] + rev + ".db"@
}

/// The path of the record store of a revision in a directory.
pub fn db_path(dir: &str, rev: &str) -> (out: String)
    ensures
        out@ == store_in(dir@, rev@),
{
    let mut out = dir.to_owned();
    out.push('/');
    out.append(rev);
    out.append(".db");
    proof {
        assert(out@ =~= store_in(dir@, rev@));
    }
    out
}

/// The branch of home-manager that goes with a channel: `master` for an
/// unstable channel and for a channel of nixpkgs, else `release-` and what
/// follows the channel's last `/`.
pub open spec fn hm_branch_of(channel: Seq<char>) -> Seq<char> {
    if contains(channel, "unstable"@) || has_prefix(channel, "nixpkgs"@) {
        "master"@
    } else {
        "release-"@ + base_name(channel)
    }
}

/// The flake whose build gives the options of home-manager for a channel.
pub open spec fn hm_docs_of(channel: Seq<char>) -> Seq<char> {
    "github:nix-community/home-manager/"@ + hm_branch_of(channel) + "#docs-json"@
}

/// The branch of home-manager that goes with a channel.
pub fn hm_branch(channel: &str) -> (out: String)
    ensures
        out@ == hm_branch_of(channel@),
{
    let chars = to_chars(channel);
    if includes(&chars, &to_chars("unstable")) || starts_with(&chars, &to_chars("nixpkgs")) {
        "master".to_owned()
    } else {
        let start = after_last(&chars, '/');
        let version = slice(&chars, start, chars.len());
        proof {
            assert(version@ =~= base_name(channel@));
        }
        let mut out = "release-".to_owned();
        out.append(from_chars(&version).as_str());
        out
    }
}

/// The flake whose build gives the options of home-manager for a channel.
pub fn hm_docs_flake(channel: &str) -> (out: String)
    ensures
        out@ == hm_docs_of(channel@),
{
    let mut out = "github:nix-community/home-manager/".to_owned();
    out.append(hm_branch(channel).as_str());
    out.append("#docs-json");
    out
}

/// The program an option belongs to: for a key `programs.<name>.<...>` the
/// name between the first and the second dot.
pub open spec fn program_of(key: Seq<char>) -> Option<Seq<char>> {
    match without_prefix(key, "programs."@) {
        Some(rest) => {
            let i = index_of(rest, '.');
            if 0 <= i < rest.len() {
                Some(rest.take(i))
            } else {
                Some(rest)
            }
        },
        None => None,
    }
}

/// The key of the option that enables a program.
pub open spec fn enable_key(program: Seq<char>) -> Seq<char> {
    "programs."@ + program + ".enable"@
}

/// The program under which an option is kept: the program it belongs to,
/// where the options hold the one that enables that program.
pub open spec fn kept_program(key: Seq<char>, keys: Seq<Seq<char>>) -> Option<Seq<char>> {
    match program_of(key) {
        Some(p) => if keys.contains(enable_key(p)) {
            Some(p)
        } else {
            None
        },
        None => None,
    }
}

fn program(key: &Vec<char>) -> (r: Option<Vec<char>>)
    ensures
        match r {
            Some(p) => program_of(key@) == Some(p@),
            None => program_of(key@) is None,
        },
{
    match strip_prefix(key, &to_chars("programs.")) {
        Some(rest) => {
            proof {
                assert(rest@.skip(0) =~= rest@);
            }
            let i = find_from(&rest, '.', 0);
            if i < rest.len() {
                let p = slice(&rest, 0, i);
                proof {
                    assert(p@ =~= rest@.take(i as int));
                }
                Some(p)
            } else {
                Some(rest)
            }
        },
        None => None,
    }
}

fn holds(keys: &Vec<Vec<char>>, key: &Vec<char>) -> (b: bool)
    ensures
        b == rows(keys@).contains(key@),
{
    let mut i: usize = 0;
    while i < keys.len()
        invariant
            i <= keys.len(),
            forall|k: int| 0 <= k < i ==> rows(keys@)[k] != key@,
        decreases keys.len() - i,
    {
        if same(&keys[i], key) {
            proof {
                assert(rows(keys@)[i as int] == key@);
            }
            return true;
        }
        i += 1;
    }
    false
}

/// For each key of a set of options, the program under which the option is
/// kept, if it is kept.
pub fn extract_program_options(keys: &Vec<String>) -> (out: Vec<Option<String>>)
    ensures
        out@.len() == keys@.len(),
        forall|i: int|
            0 <= i < keys@.len() ==> opt(#[trigger] out@[i]) == kept_program(
                strs(keys@)[i],
                strs(keys@),
            ),
{
    let all = to_rows(keys);
    let mut out: Vec<Option<String>> = Vec::new();
    let mut i: usize = 0;
    proof {
        assert(rows(all@).len() == all@.len());
        assert(strs(keys@).len() == keys@.len());
    }
    while i < all.len()
        invariant
            i <= all.len(),
            all@.len() == keys@.len(),
            rows(all@) == strs(keys@),
            out@.len() == i,
            forall|k: int|
                0 <= k < i ==> opt(#[trigger] out@[k]) == kept_program(
                    strs(keys@)[k],
                    strs(keys@),
                ),
        decreases all.len() - i,
    {
        proof {
            assert(rows(all@)[i as int] == all@[i as int]@);
        }
        let kept = match program(&all[i]) {
            Some(p) => {
                let mut enable = chain(&to_chars("programs."), &p);
                enable = chain(&enable, &to_chars(".enable"));
                if holds(&all, &enable) {
                    Some(from_chars(&p))
                } else {
                    None
                }
            },
            None => None,
        };
        out.push(kept);
        i += 1;
    }
    out
}

/// A flag as it is written into a row: one where it is set, zero where it
/// is clear or absent.
pub fn bool_to_int(b: Option<bool>) -> (n: i32)
    ensures
        n == if b == Some(true) {
            1i32
        } else {
            0i32
        },
{
    match b {
        Some(true) => 1,
        _ => 0,
    }
}

/// A text as it is written into a row: empty where it is absent.
pub fn text_or_default(t: Option<String>) -> (out: String)
    ensures
        out@ == match t {
            Some(s) => s@,
            None => Seq::<char>::empty(),
        },
{
    match t {
        Some(s) => s,
        None => String::new(),
    }
}

} // verus!
