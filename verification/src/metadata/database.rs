//! The revision cache: which revisions' artifacts are kept, what a fetch
//! does step by step, and what a cleanup pass removes.
//!
//! A fetch records the requested revision in its slot before it looks for
//! the artifact, so the slot names the revision most recently asked for even
//! when the download then fails.

use crate::text::{
    ends_with, first_at, from_chars, has_suffix, lemma_first_at, same, slice, strs, to_chars,
};
use vstd::prelude::*;

verus! {

/// The slot of the cache entry a fetch writes its revision to.
#[derive(Clone, Copy, Debug, PartialEq, Eq, Structural)]
pub enum DatabaseCacheEntry {
    Current,
    New,
}

/// The two revisions whose artifacts are kept.
#[derive(Debug)]
pub struct DatabaseCache {
    pub current_rev: String,
    pub new_rev: String,
}

/// What a `DatabaseCache` holds, as plain values.
pub struct DatabaseCacheView {
    pub current_rev: Seq<char>,
    pub new_rev: Seq<char>,
}

impl View for DatabaseCache {
    type V = DatabaseCacheView;

    open spec fn view(&self) -> DatabaseCacheView {
        DatabaseCacheView { current_rev: self.current_rev@, new_rev: self.new_rev@ }
    }
}

/// The entry a cache starts with: no revision in either slot.
pub open spec fn blank() -> DatabaseCacheView {
    DatabaseCacheView { current_rev: Seq::empty(), new_rev: Seq::empty() }
}

/// The entry after `rev` was asked for in slot `entry`: that slot holds
/// `rev`, the other slot is as before.
pub open spec fn recorded(
    cache: DatabaseCacheView,
    rev: Seq<char>,
    entry: DatabaseCacheEntry,
) -> DatabaseCacheView {
    match entry {
        DatabaseCacheEntry::Current => DatabaseCacheView { current_rev: rev, ..cache },
        DatabaseCacheEntry::New => DatabaseCacheView { new_rev: rev, ..cache },
    }
}

/// Name of the artifact of a revision.
pub open spec fn artifact_name(rev: Seq<char>) -> Seq<char> {
    rev + ".db"@
}

/// Name of the index directory paired with the artifact of a revision.
pub open spec fn index_name(rev: Seq<char>) -> Seq<char> {
    rev + ".index"@
}

/// `name` without the ending `ext`, where it has that ending and more.
pub open spec fn stem_before(name: Seq<char>, ext: Seq<char>) -> Option<Seq<char>> {
    if has_suffix(name, ext) && name.len() > ext.len() {
        Some(name.take(name.len() - ext.len()))
    } else {
        None
    }
}

/// The revision a name in the cache directory belongs to: that of an
/// artifact or of an index directory. Other names belong to none.
pub open spec fn revision_of(name: Seq<char>) -> Option<Seq<char>> {
    match stem_before(name, ".db"@) {
        Some(rev) => Some(rev),
        None => stem_before(name, ".index"@),
    }
}

/// Whether a cleanup after fetching `rev` removes `name`: it belongs to a
/// revision that is neither in a slot nor the one just fetched.
pub open spec fn is_stale(name: Seq<char>, rev: Seq<char>, cache: DatabaseCacheView) -> bool {
    match revision_of(name) {
        Some(r) => r != rev && r != cache.current_rev && r != cache.new_rev,
        None => false,
    }
}

/// The names a cleanup removes, in the order of the listing.
pub open spec fn stale_names(
    entries: Seq<Seq<char>>,
    rev: Seq<char>,
    cache: DatabaseCacheView,
) -> Seq<Seq<char>> {
    entries.filter(|n: Seq<char>| is_stale(n, rev, cache))
}

/// The names a cleanup leaves, in the order of the listing.
pub open spec fn kept_names(
    entries: Seq<Seq<char>>,
    rev: Seq<char>,
    cache: DatabaseCacheView,
) -> Seq<Seq<char>> {
    entries.filter(|n: Seq<char>| !is_stale(n, rev, cache))
}

impl DatabaseCache {
    /// The entry of a cache that has fetched nothing yet.
    pub fn empty() -> (c: DatabaseCache)
        ensures
            c@ == blank(),
    {
        DatabaseCache { current_rev: String::new(), new_rev: String::new() }
    }

    /// Writes `rev` into the slot `entry` and leaves the other slot alone.
    pub fn record(self, rev: &str, entry: DatabaseCacheEntry) -> (c: DatabaseCache)
        ensures
            c@ == recorded(self@, rev@, entry),
    {
        match entry {
            DatabaseCacheEntry::Current => DatabaseCache {
                current_rev: rev.to_owned(),
                new_rev: self.new_rev,
            },
            DatabaseCacheEntry::New => DatabaseCache {
                current_rev: self.current_rev,
                new_rev: rev.to_owned(),
            },
        }
    }
}

fn with_ending(stem: &str, ending: &str) -> (out: String)
    ensures
        out@ == stem@ + ending@,
{
    let mut out = stem.to_owned();
    out.append(ending);
    out
}

/// Name of the artifact of `rev` in the cache directory.
pub fn artifact_file(rev: &str) -> (out: String)
    ensures
        out@ == artifact_name(rev@),
{
    with_ending(rev, ".db")
}

/// Name of the index directory that goes with the artifact of `rev`.
pub fn index_dir(rev: &str) -> (out: String)
    ensures
        out@ == index_name(rev@),
{
    with_ending(rev, ".index")
}

/// The cache directory of a home directory.
pub open spec fn cache_dir_of(home: Seq<char>) -> Seq<char> {
    home + "/.cache/libsnow"@
}

/// A name in the cache directory as a path.
pub open spec fn cached(dir: Seq<char>, name: Seq<char>) -> Seq<char> {
    dir + seq!['/'] + name
}

/// The address the artifact of a revision is fetched from.
pub open spec fn download_url_of(rev: Seq<char>) -> Seq<char> {
    "https://api.snowflakeos.org/libsnow/"@ + rev
}

/// The cache directory of the user whose home directory is `home`.
pub fn cache_dir(home: &str) -> (out: String)
    ensures
        out@ == cache_dir_of(home@),
{
    with_ending(home, "/.cache/libsnow")
}

fn in_cache(dir: &str, name: &str) -> (out: String)
    ensures
        out@ == cached(dir@, name@),
{
    let mut out = dir.to_owned();
    out.push('/');
    out.append(name);
    proof {
        assert(out@ =~= cached(dir@, name@));
    }
    out
}

/// The path of the persisted entry in a cache directory.
pub fn cache_file(dir: &str) -> (out: String)
    ensures
        out@ == cached(dir@, "cache.json"@),
{
    in_cache(dir, "cache.json")
}

/// The path of the artifact of `rev` in a cache directory.
pub fn artifact_path(dir: &str, rev: &str) -> (out: String)
    ensures
        out@ == cached(dir@, artifact_name(rev@)),
{
    in_cache(dir, artifact_file(rev).as_str())
}

/// The address the artifact of `rev` is fetched from.
pub fn download_url(rev: &str) -> (out: String)
    ensures
        out@ == download_url_of(rev@),
{
    let mut out = "https://api.snowflakeos.org/libsnow/".to_owned();
    out.append(rev);
    out
}

/// A cache directory: where the artifacts of revisions, their index
/// directories and the persisted entry are kept.
#[derive(Debug)]
pub struct RevisionCache {
    root: String,
}

impl RevisionCache {
    /// The path of the directory.
    pub closed spec fn dir(&self) -> Seq<char> {
        self.root@
    }

    /// The cache in the directory `root`.
    pub fn new(root: &str) -> (c: RevisionCache)
        ensures
            c.dir() == root@,
    {
        RevisionCache { root: root.to_owned() }
    }

    /// The cache of the user whose home directory is `home`.
    pub fn in_home(home: &str) -> (c: RevisionCache)
        ensures
            c.dir() == cache_dir_of(home@),
    {
        RevisionCache { root: cache_dir(home) }
    }

    /// The path of the directory.
    pub fn root(&self) -> (p: &str)
        ensures
            p@ == self.dir(),
    {
        self.root.as_str()
    }

    /// The path of the persisted entry.
    pub fn cache_file(&self) -> (out: String)
        ensures
            out@ == cached(self.dir(), "cache.json"@),
    {
        cache_file(self.root.as_str())
    }

    /// The path of the artifact of `rev`.
    pub fn artifact_path(&self, rev: &str) -> (out: String)
        ensures
            out@ == cached(self.dir(), artifact_name(rev@)),
    {
        artifact_path(self.root.as_str(), rev)
    }

    /// The path of the index directory that goes with the artifact of `rev`.
    pub fn index_path(&self, rev: &str) -> (out: String)
        ensures
            out@ == cached(self.dir(), index_name(rev@)),
    {
        in_cache(self.root.as_str(), index_dir(rev).as_str())
    }

    /// The path of a name found in the directory.
    pub fn path_of(&self, name: &str) -> (out: String)
        ensures
            out@ == cached(self.dir(), name@),
    {
        in_cache(self.root.as_str(), name)
    }
}

fn stem(name: &Vec<char>, ext: &str) -> (r: Option<Vec<char>>)
    ensures
        match r {
            Some(s) => stem_before(name@, ext@) == Some(s@),
            None => stem_before(name@, ext@) is None,
        },
{
    let e = to_chars(ext);
    if ends_with(name, &e) && name.len() > e.len() {
        let s = slice(name, 0, name.len() - e.len());
        proof {
            assert(name@.take(name@.len() - e@.len()) =~= name@.subrange(
                0,
                name@.len() - e@.len(),
            ));
        }
        Some(s)
    } else {
        None
    }
}

/// The revision that a name in the cache directory belongs to.
pub fn revision(name: &str) -> (r: Option<String>)
    ensures
        match r {
            Some(s) => revision_of(name@) == Some(s@),
            None => revision_of(name@) is None,
        },
{
    let chars = to_chars(name);
    match stem(&chars, ".db") {
        Some(s) => Some(from_chars(&s)),
        None => match stem(&chars, ".index") {
            Some(s) => Some(from_chars(&s)),
            None => None,
        },
    }
}

/// Whether a cleanup after fetching `rev` removes `name`.
pub fn stale(name: &str, rev: &str, cache: &DatabaseCache) -> (b: bool)
    ensures
        b == is_stale(name@, rev@, cache@),
{
    match revision(name) {
        Some(r) => {
            let r = to_chars(r.as_str());
            !same(&r, &to_chars(rev)) && !same(&r, &to_chars(cache.current_rev.as_str()))
                && !same(&r, &to_chars(cache.new_rev.as_str()))
        },
        None => false,
    }
}

/// The cleanup after fetching `rev`: of the names found in the cache
/// directory, those to delete. Every artifact and index directory goes
/// whose revision is neither in a slot of `cache` nor `rev` itself; the
/// rest stay, whatever the order of the listing.
pub fn cleanup(entries: &Vec<String>, rev: &str, cache: &DatabaseCache) -> (out: Vec<String>)
    ensures
        strs(out@) == stale_names(strs(entries@), rev@, cache@),
{
    let ghost pred = |n: Seq<char>| is_stale(n, rev@, cache@);
    let ghost all = strs(entries@);
    let mut out: Vec<String> = Vec::new();
    let mut i: usize = 0;
    proof {
        assert(all.take(0) =~= Seq::empty());
        assert(Seq::<Seq<char>>::empty().filter(pred) =~= Seq::empty()) by {
            reveal(Seq::filter);
        }
        assert(strs(out@) =~= Seq::empty());
    }
    while i < entries.len()
        invariant
            i <= entries.len(),
            all == strs(entries@),
            pred == (|n: Seq<char>| is_stale(n, rev@, cache@)),
            strs(out@) == all.take(i as int).filter(pred),
        decreases entries.len() - i,
    {
        let name = &entries[i];
        let ghost before = strs(out@);
        proof {
            assert(all.take(i + 1) =~= all.take(i as int).push(all[i as int]));
            all.take(i as int).lemma_filter_push(all[i as int], pred);
            assert(all[i as int] == name@);
        }
        if stale(name.as_str(), rev, cache) {
            out.push(name.clone());
            proof {
                assert(strs(out@) =~= before.push(name@));
            }
        }
        i += 1;
    }
    proof {
        assert(all.take(entries@.len() as int) =~= all);
    }
    out
}

/// Position of the first artifact among the names of a directory, or the
/// number of names.
pub open spec fn first_artifact(names: Seq<Seq<char>>) -> int {
    first_at(names.len() as int, |i: int| stem_before(names[i], ".db"@) is Some, 0)
}

/// The artifact to open without a connection: the first one that the
/// listing of the cache directory holds, if it holds any.
pub fn database_connection_offline(entries: &Vec<String>) -> (r: Option<String>)
    ensures
        match r {
            Some(name) => {
                let at = first_artifact(strs(entries@));
                0 <= at < entries@.len() && name@ == entries@[at]@
            },
            None => first_artifact(strs(entries@)) == entries@.len(),
        },
{
    let mut i: usize = 0;
    loop
        invariant_except_break
            i <= entries.len(),
            forall|k: int| 0 <= k < i ==> stem_before(strs(entries@)[k], ".db"@) is None,
        ensures
            i <= entries.len(),
            forall|k: int| 0 <= k < i ==> stem_before(strs(entries@)[k], ".db"@) is None,
            i < entries.len() ==> stem_before(strs(entries@)[i as int], ".db"@) is Some,
        decreases entries.len() - i,
    {
        if i == entries.len() {
            break;
        }
        if stem(&to_chars(entries[i].as_str()), ".db").is_some() {
            break;
        }
        i += 1;
    }
    proof {
        let names = strs(entries@);
        lemma_first_at(
            names.len() as int,
            |i: int| stem_before(names[i], ".db"@) is Some,
            0,
            i as int,
        );
    }
    if i < entries.len() {
        Some(entries[i].clone())
    } else {
        None
    }
}

/// Why a fetch ended without an artifact.
#[derive(Clone, Copy, Debug, PartialEq, Eq, Structural)]
pub enum FetchError {
    /// The transport answered with a status that is no success; the status
    /// is zero where no answer came at all.
    FetchFailed { status: u16 },
    /// Reading or writing the cache directory failed.
    StorageError,
    /// The reply does not answer the action that was pending.
    Unexpected,
}

/// Where a fetch stands: the action whose reply it waits for.
#[derive(Clone, Copy, Debug, PartialEq, Eq, Structural)]
pub enum FetchPhase {
    Start,
    LoadingCache,
    StoringCache,
    Probing,
    Downloading,
    StoringArtifact,
    Listing,
    Removing,
    Finished,
}

/// What the caller is to do next.
#[derive(Clone, Copy, Debug, PartialEq, Eq, Structural)]
pub enum FetchAction {
    /// Read the persisted entry; where there is none, take the blank one.
    LoadCache,
    /// Record the revision in its slot and persist the entry.
    StoreCache,
    /// Look whether the artifact of the revision exists.
    Probe,
    /// Ask the transport for the artifact.
    Download,
    /// Write the downloaded bytes to the artifact, all or nothing.
    StoreArtifact,
    /// List the names in the cache directory.
    List,
    /// Delete the stale names, ignoring deletions that fail.
    Remove,
    /// The artifact is in place.
    Done,
    Fail(FetchError),
}

/// What came of the last action.
#[derive(Clone, Copy, Debug, PartialEq, Eq, Structural)]
pub enum FetchReply {
    /// Nothing was done yet.
    Started,
    CacheLoaded,
    /// The write went through.
    Stored,
    Exists(bool),
    /// The transport answered with this status.
    Response { status: u16 },
    /// The transport gave no answer.
    TransportFailed,
    Listed,
    Removed,
    /// The cache directory could not be read or written.
    StorageFailed,
}

/// A status that stands for success.
pub open spec fn is_success(status: u16) -> bool {
    200 <= status < 300
}

/// The next phase and action of a fetch.
///
/// The entry is stored before the artifact is looked for. An artifact that
/// exists is never downloaded again. A download that fails ends the fetch
/// before anything is written. After a hit and after a stored download the
/// directory is listed and cleaned; a cleanup that cannot delete does not
/// fail the fetch, a directory that cannot be read or written does.
pub open spec fn step_of(phase: FetchPhase, reply: FetchReply) -> (FetchPhase, FetchAction) {
    match (phase, reply) {
        (FetchPhase::Start, FetchReply::Started) => (
            FetchPhase::LoadingCache,
            FetchAction::LoadCache,
        ),
        (FetchPhase::LoadingCache, FetchReply::CacheLoaded) => (
            FetchPhase::StoringCache,
            FetchAction::StoreCache,
        ),
        (FetchPhase::StoringCache, FetchReply::Stored) => (
            FetchPhase::Probing,
            FetchAction::Probe,
        ),
        (FetchPhase::Probing, FetchReply::Exists(true)) => (
            FetchPhase::Listing,
            FetchAction::List,
        ),
        (FetchPhase::Probing, FetchReply::Exists(false)) => (
            FetchPhase::Downloading,
            FetchAction::Download,
        ),
        (FetchPhase::Downloading, FetchReply::Response { status }) => if is_success(status) {
            (FetchPhase::StoringArtifact, FetchAction::StoreArtifact)
        } else {
            (FetchPhase::Finished, FetchAction::Fail(FetchError::FetchFailed { status }))
        },
        (FetchPhase::Downloading, FetchReply::TransportFailed) => (
            FetchPhase::Finished,
            FetchAction::Fail(FetchError::FetchFailed { status: 0 }),
        ),
        (FetchPhase::StoringArtifact, FetchReply::Stored) => (
            FetchPhase::Listing,
            FetchAction::List,
        ),
        (FetchPhase::Listing, FetchReply::Listed) => (FetchPhase::Removing, FetchAction::Remove),
        (FetchPhase::Removing, FetchReply::Removed) => (FetchPhase::Finished, FetchAction::Done),
        (FetchPhase::Removing, FetchReply::StorageFailed) => (
            FetchPhase::Finished,
            FetchAction::Done,
        ),
        (FetchPhase::LoadingCache, FetchReply::StorageFailed)
        | (FetchPhase::StoringCache, FetchReply::StorageFailed)
        | (FetchPhase::Probing, FetchReply::StorageFailed)
        | (FetchPhase::StoringArtifact, FetchReply::StorageFailed)
        | (FetchPhase::Listing, FetchReply::StorageFailed) => (
            FetchPhase::Finished,
            FetchAction::Fail(FetchError::StorageError),
        ),
        _ => (FetchPhase::Finished, FetchAction::Fail(FetchError::Unexpected)),
    }
}

/// Where a fetch begins.
pub fn fetch_start() -> (r: (FetchPhase, FetchReply))
    ensures
        r == (FetchPhase::Start, FetchReply::Started),
{
    (FetchPhase::Start, FetchReply::Started)
}

/// Decides what a fetch does next, from where it stands and what came of
/// the last action.
pub fn fetch_step(phase: FetchPhase, reply: FetchReply) -> (r: (FetchPhase, FetchAction))
    ensures
        r == step_of(phase, reply),
{
    match (phase, reply) {
        (FetchPhase::Start, FetchReply::Started) => (
            FetchPhase::LoadingCache,
            FetchAction::LoadCache,
        ),
        (FetchPhase::LoadingCache, FetchReply::CacheLoaded) => (
            FetchPhase::StoringCache,
            FetchAction::StoreCache,
        ),
        (FetchPhase::StoringCache, FetchReply::Stored) => (
            FetchPhase::Probing,
            FetchAction::Probe,
        ),
        (FetchPhase::Probing, FetchReply::Exists(found)) => {
            if found {
                (FetchPhase::Listing, FetchAction::List)
            } else {
                (FetchPhase::Downloading, FetchAction::Download)
            }
        },
        (FetchPhase::Downloading, FetchReply::Response { status }) => {
            if 200 <= status && status < 300 {
                (FetchPhase::StoringArtifact, FetchAction::StoreArtifact)
            } else {
                (FetchPhase::Finished, FetchAction::Fail(FetchError::FetchFailed { status }))
            }
        },
        (FetchPhase::Downloading, FetchReply::TransportFailed) => (
            FetchPhase::Finished,
            FetchAction::Fail(FetchError::FetchFailed { status: 0 }),
        ),
        (FetchPhase::StoringArtifact, FetchReply::Stored) => (
            FetchPhase::Listing,
            FetchAction::List,
        ),
        (FetchPhase::Listing, FetchReply::Listed) => (FetchPhase::Removing, FetchAction::Remove),
        (FetchPhase::Removing, FetchReply::Removed) => (FetchPhase::Finished, FetchAction::Done),
        (FetchPhase::Removing, FetchReply::StorageFailed) => (
            FetchPhase::Finished,
            FetchAction::Done,
        ),
        (FetchPhase::LoadingCache, FetchReply::StorageFailed) => (
            FetchPhase::Finished,
            FetchAction::Fail(FetchError::StorageError),
        ),
        (FetchPhase::StoringCache, FetchReply::StorageFailed) => (
            FetchPhase::Finished,
            FetchAction::Fail(FetchError::StorageError),
        ),
        (FetchPhase::Probing, FetchReply::StorageFailed) => (
            FetchPhase::Finished,
            FetchAction::Fail(FetchError::StorageError),
        ),
        (FetchPhase::StoringArtifact, FetchReply::StorageFailed) => (
            FetchPhase::Finished,
            FetchAction::Fail(FetchError::StorageError),
        ),
        (FetchPhase::Listing, FetchReply::StorageFailed) => (
            FetchPhase::Finished,
            FetchAction::Fail(FetchError::StorageError),
        ),
        _ => (FetchPhase::Finished, FetchAction::Fail(FetchError::Unexpected)),
    }
}

/// A cache directory and a transport, as a fetch sees them.
pub struct CacheWorld {
    /// The revision asked for, and the slot it is asked for in.
    pub rev: Seq<char>,
    pub entry: DatabaseCacheEntry,
    /// The status the transport answers a download with.
    pub status: u16,
    /// The persisted entry, if there is one.
    pub persisted: Option<DatabaseCacheView>,
    /// The entry the fetch holds in memory.
    pub held: DatabaseCacheView,
    /// The names in the cache directory.
    pub names: Seq<Seq<char>>,
}

/// What an action does to a world whose directory and transport do as they
/// are told, and the reply it gives.
pub open spec fn perform(w: CacheWorld, action: FetchAction) -> (CacheWorld, FetchReply) {
    match action {
        FetchAction::LoadCache => (
            CacheWorld {
                held: match w.persisted {
                    Some(c) => c,
                    None => blank(),
                },
                ..w
            },
            FetchReply::CacheLoaded,
        ),
        FetchAction::StoreCache => {
            let c = recorded(w.held, w.rev, w.entry);
            (CacheWorld { persisted: Some(c), held: c, ..w }, FetchReply::Stored)
        },
        FetchAction::Probe => (w, FetchReply::Exists(w.names.contains(artifact_name(w.rev)))),
        FetchAction::Download => (w, FetchReply::Response { status: w.status }),
        FetchAction::StoreArtifact => (
            CacheWorld {
                names: if w.names.contains(artifact_name(w.rev)) {
                    w.names
                } else {
                    w.names.push(artifact_name(w.rev))
                },
                ..w
            },
            FetchReply::Stored,
        ),
        FetchAction::List => (w, FetchReply::Listed),
        FetchAction::Remove => (
            CacheWorld { names: kept_names(w.names, w.rev, w.held), ..w },
            FetchReply::Removed,
        ),
        FetchAction::Done => (w, FetchReply::Started),
        FetchAction::Fail(_) => (w, FetchReply::Started),
    }
}

/// How a fetch went: the world it left, how it ended (if it did), and how
/// often it asked the transport.
pub struct FetchTrace {
    pub world: CacheWorld,
    pub end: Option<Result<(), FetchError>>,
    pub downloads: nat,
}

/// Runs the steps of a fetch against a world, for at most `fuel` actions.
pub open spec fn drive(w: CacheWorld, phase: FetchPhase, reply: FetchReply, fuel: nat) -> FetchTrace
    decreases fuel,
{
    if fuel == 0 {
        FetchTrace { world: w, end: None, downloads: 0 }
    } else {
        let (next, action) = step_of(phase, reply);
        match action {
            FetchAction::Done => FetchTrace { world: w, end: Some(Ok(())), downloads: 0 },
            FetchAction::Fail(e) => FetchTrace { world: w, end: Some(Err(e)), downloads: 0 },
            _ => {
                let (w2, r2) = perform(w, action);
                let t = drive(w2, next, r2, (fuel - 1) as nat);
                FetchTrace {
                    downloads: t.downloads + if action == FetchAction::Download {
                        1nat
                    } else {
                        0nat
                    },
                    ..t
                }
            },
        }
    }
}

/// A whole fetch of `w.rev` into slot `w.entry`.
pub open spec fn fetched(w: CacheWorld) -> FetchTrace {
    drive(w, FetchPhase::Start, FetchReply::Started, 10)
}

/// The artifacts among the names of a directory.
pub open spec fn artifacts(names: Seq<Seq<char>>) -> Seq<Seq<char>> {
    names.filter(|n: Seq<char>| stem_before(n, ".db"@) is Some)
}

proof fn lemma_filter_unique(s: Seq<Seq<char>>, p: spec_fn(Seq<char>) -> bool)
    requires
        s.no_duplicates(),
    ensures
        s.filter(p).no_duplicates(),
    decreases s.len(),
{
    reveal(Seq::filter);
    if s.len() > 0 {
        let t = s.drop_last();
        lemma_filter_unique(t, p);
        if p(s.last()) {
            let f = t.filter(p);
            assert forall|i: int| 0 <= i < f.len() implies f[i] != s.last() by {
                assert(f.contains(f[i]));
                t.lemma_filter_contains_rev(p, f[i]);
                let k = choose|k: int| 0 <= k < t.len() && t[k] == f[i];
                assert(s[k] == t[k]);
            }
        }
    }
}

proof fn lemma_artifact_name_stem(rev: Seq<char>)
    ensures
        rev.len() > 0 ==> stem_before(artifact_name(rev), ".db"@) == Some(rev),
        rev.len() > 0 ==> revision_of(artifact_name(rev)) == Some(rev),
{
    let n = artifact_name(rev);
    let e = ".db"@;
    assert(n.skip(n.len() - e.len()) =~= e);
    assert(n.take(n.len() - e.len()) =~= rev);
}

proof fn lemma_stem_names(name: Seq<char>, ext: Seq<char>)
    ensures
        stem_before(name, ext) matches Some(r) ==> name == r + ext && r.len() > 0,
{
    if stem_before(name, ext) is Some {
        let r = name.take(name.len() - ext.len());
        assert(name =~= r + name.skip(name.len() - ext.len()));
    }
}

/// The artifact of a revision is never stale in a cleanup for that revision.
pub proof fn lemma_fetched_artifact_is_kept(rev: Seq<char>, cache: DatabaseCacheView)
    ensures
        !is_stale(artifact_name(rev), rev, cache),
{
    lemma_artifact_name_stem(rev);
    if rev.len() == 0 {
        reveal_strlit(".db");
        reveal_strlit(".index");
        assert(artifact_name(rev) =~= ".db"@);
    }
}

/// The persisted entry is never stale.
pub proof fn lemma_cache_file_is_kept(rev: Seq<char>, cache: DatabaseCacheView)
    ensures
        !is_stale("cache.json"@, rev, cache),
{
    reveal_strlit("cache.json");
    reveal_strlit(".db");
    reveal_strlit(".index");
    let name = "cache.json"@;
    assert(name.skip(name.len() - 3)[0] == 's');
    assert(name.skip(name.len() - 6)[0] == 'e');
}

/// A fetch of a revision whose artifact is in the directory ends well
/// without asking the transport.
pub proof fn lemma_hit_needs_no_download(w: CacheWorld)
    requires
        w.names.contains(artifact_name(w.rev)),
    ensures
        fetched(w).end == Some(Ok::<(), FetchError>(())),
        fetched(w).downloads == 0,
{
    reveal_with_fuel(drive, 10);
}

/// How far a fetch has come.
pub open spec fn progress(phase: FetchPhase) -> nat {
    match phase {
        FetchPhase::Start => 0,
        FetchPhase::LoadingCache => 1,
        FetchPhase::StoringCache => 2,
        FetchPhase::Probing => 3,
        FetchPhase::Downloading => 4,
        FetchPhase::StoringArtifact => 5,
        FetchPhase::Listing => 6,
        FetchPhase::Removing => 7,
        FetchPhase::Finished => 8,
    }
}

/// Whatever the reply, a step moves a fetch on, and a fetch that has
/// finished stays so: no caller is asked for more than eight actions.
pub proof fn lemma_step_moves_on(phase: FetchPhase, reply: FetchReply)
    ensures
        phase != FetchPhase::Finished ==> progress(step_of(phase, reply).0) > progress(phase),
        step_of(FetchPhase::Finished, reply).0 == FetchPhase::Finished,
        step_of(phase, reply).0 == FetchPhase::Finished <==> step_of(phase, reply).1
            == FetchAction::Done || step_of(phase, reply).1 is Fail,
{
}

/// Every fetch ends.
pub proof fn lemma_fetch_ends(w: CacheWorld)
    ensures
        fetched(w).end is Some,
{
    reveal_with_fuel(drive, 10);
}

/// A fetch of a revision whose artifact is not in the directory, answered
/// with a status that is no success, fails with that status. It leaves the
/// directory as it was, without an artifact of the revision, and the entry
/// persisted with the revision in its slot.
pub proof fn lemma_failed_download_writes_no_artifact(w: CacheWorld)
    requires
        !w.names.contains(artifact_name(w.rev)),
        !is_success(w.status),
    ensures
        fetched(w).end == Some(
            Err::<(), FetchError>(FetchError::FetchFailed { status: w.status }),
        ),
        fetched(w).downloads == 1,
        fetched(w).world.names == w.names,
        fetched(w).world.persisted == Some(
            recorded(
                match w.persisted {
                    Some(c) => c,
                    None => blank(),
                },
                w.rev,
                w.entry,
            ),
        ),
{
    reveal_with_fuel(drive, 10);
}

/// A download is asked for in one situation only: the artifact was looked
/// for and is not there.
pub proof fn lemma_download_only_on_miss(phase: FetchPhase, reply: FetchReply)
    ensures
        step_of(phase, reply).1 == FetchAction::Download <==> phase == FetchPhase::Probing && reply
            == FetchReply::Exists(false),
{
}

/// After a fetch that ended well the artifact of the revision is in the
/// directory, and its revision is in the slot it was asked for in.
pub proof fn lemma_fetch_leaves_artifact(w: CacheWorld)
    requires
        fetched(w).end == Some(Ok::<(), FetchError>(())),
    ensures
        fetched(w).world.names.contains(artifact_name(w.rev)),
        fetched(w).world.persisted == Some(
            recorded(
                match w.persisted {
                    Some(c) => c,
                    None => blank(),
                },
                w.rev,
                w.entry,
            ),
        ),
        fetched(w).world.rev == w.rev,
{
    reveal_with_fuel(drive, 10);
    let loaded = match w.persisted {
        Some(c) => c,
        None => blank(),
    };
    let held = recorded(loaded, w.rev, w.entry);
    let name = artifact_name(w.rev);
    let pred = |n: Seq<char>| !is_stale(n, w.rev, held);
    lemma_fetched_artifact_is_kept(w.rev, held);
    let before = if w.names.contains(name) {
        w.names
    } else {
        w.names.push(name)
    };
    assert(before.contains(name)) by {
        if !w.names.contains(name) {
            assert(before[before.len() - 1] == name);
        }
    }
    let k = choose|k: int| 0 <= k < before.len() && before[k] == name;
    before.lemma_filter_contains(pred, k);
}

/// Fetching a revision again, after a fetch of it that ended well, asks the
/// transport for nothing: whatever slot the second fetch names and whatever
/// the transport would answer.
pub proof fn lemma_second_fetch_is_offline(w: CacheWorld, entry: DatabaseCacheEntry, status: u16)
    requires
        fetched(w).end == Some(Ok::<(), FetchError>(())),
    ensures
        fetched(CacheWorld { entry, status, ..fetched(w).world }).downloads == 0,
        fetched(CacheWorld { entry, status, ..fetched(w).world }).end == Some(
            Ok::<(), FetchError>(()),
        ),
{
    lemma_fetch_leaves_artifact(w);
    lemma_hit_needs_no_download(CacheWorld { entry, status, ..fetched(w).world });
}

/// After a fetch that ended well every artifact left in the directory
/// belongs to the fetched revision or to a revision in a slot, so at most
/// three artifacts remain.
pub proof fn lemma_at_most_three_artifacts(w: CacheWorld)
    requires
        w.names.no_duplicates(),
        fetched(w).end == Some(Ok::<(), FetchError>(())),
    ensures
        artifacts(fetched(w).world.names).len() <= 3,
        forall|i: int|
            0 <= i < artifacts(fetched(w).world.names).len() ==> {
                let n = #[trigger] artifacts(fetched(w).world.names)[i];
                let c = fetched(w).world.persisted->0;
                n == artifact_name(w.rev) || n == artifact_name(c.current_rev) || n
                    == artifact_name(c.new_rev)
            },
{
    reveal_with_fuel(drive, 10);
    let loaded = match w.persisted {
        Some(c) => c,
        None => blank(),
    };
    let held = recorded(loaded, w.rev, w.entry);
    let name = artifact_name(w.rev);
    let before = if w.names.contains(name) {
        w.names
    } else {
        w.names.push(name)
    };
    let keep = |n: Seq<char>| !is_stale(n, w.rev, held);
    let is_artifact = |n: Seq<char>| stem_before(n, ".db"@) is Some;
    let after = before.filter(keep);
    assert(fetched(w).world.names == after);
    assert(fetched(w).world.persisted == Some(held));
    let left = after.filter(is_artifact);
    assert(before.no_duplicates());
    lemma_filter_unique(before, keep);
    lemma_filter_unique(after, is_artifact);
    let allowed = set![name, artifact_name(held.current_rev), artifact_name(held.new_rev)];
    assert forall|i: int| 0 <= i < left.len() implies allowed.contains(#[trigger] left[i]) by {
        let n = left[i];
        assert(left.contains(n));
        after.lemma_filter_contains_rev(is_artifact, n);
        let k = choose|k: int| 0 <= k < left.len() && left[k] == n;
        after.lemma_filter_pred(is_artifact, i);
        before.lemma_filter_contains_rev(keep, n);
        let j = choose|j: int| 0 <= j < after.len() && after[j] == n;
        before.lemma_filter_pred(keep, j);
        lemma_stem_names(n, ".db"@);
    }
    assert(left.to_set().subset_of(allowed)) by {
        assert forall|n: Seq<char>| left.to_set().contains(n) implies allowed.contains(n) by {
            let k = choose|k: int| 0 <= k < left.len() && left[k] == n;
        }
    }
    vstd::set_lib::lemma_len_subset(left.to_set(), allowed);
    left.unique_seq_to_set();
    assert(allowed.len() <= 3) by {
        broadcast use vstd::set::group_set_axioms;

    }
}

} // verus!
