//! The entry point to the metadata of one revision: where its search index
//! lives, how opening it recovers from a missing or damaged index, and how
//! rows of the record store are read as lookup results.

pub mod database;
pub mod index;
pub mod revision;
pub mod search;

use crate::metadata::database::{artifact_name, cached, index_name};
use crate::metadata::index::{documents_of, IndexDocumentView, PackageRecordView};
use crate::metadata::search::{ranked, search, views, SearchQuery, SearchResult, SearchResultView};
use crate::text::{ends_with, from_chars, has_suffix, slice, to_chars, trim};
use vstd::prelude::*;

verus! {

/// What is known of a package by its key.
#[derive(Debug, Clone)]
pub struct PkgInfo {
    pub attribute: String,
    pub pname: String,
    pub version: String,
}

/// What a `PkgInfo` holds, as plain values.
pub struct PkgInfoView {
    pub attribute: Seq<char>,
    pub pname: Seq<char>,
    pub version: Seq<char>,
}

impl View for PkgInfo {
    type V = PkgInfoView;

    open spec fn view(&self) -> PkgInfoView {
        PkgInfoView { attribute: self.attribute@, pname: self.pname@, version: self.version@ }
    }
}

/// Why a lookup gave nothing.
#[derive(Clone, Copy, Debug, PartialEq, Eq, Structural)]
pub enum LookupError {
    /// The record store has no package under that attribute.
    NotFound,
}

/// The path without its artifact ending, where it names an artifact: it
/// ends in `.db` and the file name before that is not empty.
pub open spec fn artifact_stem(path: Seq<char>) -> Option<Seq<char>> {
    let n = path.len() - ".db"@.len();
    if has_suffix(path, ".db"@) && n > 0 && path[n - 1] != '/' {
        Some(path.take(n))
    } else {
        None
    }
}

/// The index directory paired with a record store: the store's path with
/// `.index` in place of its `.db`, or after the whole path where it does
/// not name an artifact.
pub open spec fn index_dir_of(db_path: Seq<char>) -> Seq<char> {
    match artifact_stem(db_path) {
        Some(stem) => stem + ".index"@,
        None => db_path + ".index"@,
    }
}

/// The index directory that belongs to the record store at `db_path`.
pub fn index_dir_for_db_path(db_path: &str) -> (out: String)
    ensures
        out@ == index_dir_of(db_path@),
{
    let path = to_chars(db_path);
    let ext = to_chars(".db");
    let mut stem = if ends_with(&path, &ext) && path.len() > ext.len() && path[path.len()
        - ext.len() - 1] != '/' {
        let s = slice(&path, 0, path.len() - ext.len());
        proof {
            assert(path@.take(path@.len() - ext@.len()) =~= s@);
        }
        from_chars(&s)
    } else {
        from_chars(&path)
    };
    stem.append(".index");
    stem
}

/// The index directory of the artifact of a revision in a cache directory
/// is the directory that a cleanup takes for the artifact's pair.
pub proof fn lemma_index_is_paired(dir: Seq<char>, rev: Seq<char>)
    requires
        rev.len() > 0,
        rev.last() != '/',
    ensures
        index_dir_of(cached(dir, artifact_name(rev))) == cached(dir, index_name(rev)),
{
    let path = cached(dir, artifact_name(rev));
    let n = path.len() - ".db"@.len();
    assert(path.skip(n) =~= ".db"@);
    assert(path[n - 1] == rev.last());
    assert(path.take(n) + ".index"@ =~= cached(dir, index_name(rev)));
}

/// The rows found under one attribute, read as the package's information.
pub open spec fn found(attribute: Seq<char>, row: Option<(String, String)>) -> Result<
    PkgInfoView,
    LookupError,
> {
    match row {
        Some((pname, version)) => Ok(PkgInfoView { attribute, pname: pname@, version: version@ }),
        None => Err(LookupError::NotFound),
    }
}

/// The handle to the metadata of one revision: the record store and the
/// index directory paired with it.
#[derive(Debug)]
pub struct Metadata {
    db_path: String,
    index_dir: String,
}

impl Metadata {
    /// The path of the record store.
    pub closed spec fn store(&self) -> Seq<char> {
        self.db_path@
    }

    /// The path of the index directory.
    pub closed spec fn index(&self) -> Seq<char> {
        self.index_dir@
    }

    /// The handle for the record store at `db_path`.
    pub fn at(db_path: &str) -> (m: Metadata)
        ensures
            m.store() == db_path@,
            m.index() == index_dir_of(db_path@),
    {
        Metadata { db_path: db_path.to_owned(), index_dir: index_dir_for_db_path(db_path) }
    }

    /// The path of the record store.
    pub fn db_path(&self) -> (p: &str)
        ensures
            p@ == self.store(),
    {
        self.db_path.as_str()
    }

    /// The path of the index directory.
    pub fn index_dir(&self) -> (p: &str)
        ensures
            p@ == self.index(),
    {
        self.index_dir.as_str()
    }

    /// The result list for the candidates the index returned for the query.
    pub fn search(
        &self,
        query: &str,
        limit: usize,
        score_threshold: u32,
        candidates: Vec<SearchResult>,
    ) -> (out: Vec<SearchResult>)
        ensures
            views(out@) == if trim(query@).len() == 0 {
                Seq::<SearchResultView>::empty()
            } else {
                ranked(views(candidates@), limit as nat, score_threshold)
            },
    {
        search(&SearchQuery { query, limit, score_threshold }, candidates)
    }

    /// Reads the row stored under `attribute`: the package's name and
    /// version where there is one, `NotFound` where there is none.
    pub fn get(&self, attribute: &str, row: Option<(String, String)>) -> (r: Result<
        PkgInfo,
        LookupError,
    >)
        ensures
            match r {
                Ok(info) => found(attribute@, row) == Ok::<PkgInfoView, LookupError>(info@),
                Err(e) => found(attribute@, row) == Err::<PkgInfoView, LookupError>(e),
            },
    {
        match row {
            Some((pname, version)) => Ok(
                PkgInfo { attribute: attribute.to_owned(), pname, version },
            ),
            None => Err(LookupError::NotFound),
        }
    }

    /// Reads the rows stored under `pname`, each an attribute and a
    /// version: one result per row, in the rows' order.
    pub fn get_by_pname(&self, pname: &str, rows: Vec<(String, String)>) -> (out: Vec<PkgInfo>)
        ensures
            out@.len() == rows@.len(),
            forall|i: int|
                0 <= i < rows@.len() ==> (#[trigger] out@[i])@ == (PkgInfoView {
                    attribute: rows@[i].0@,
                    pname: pname@,
                    version: rows@[i].1@,
                }),
    {
        let ghost all = rows@;
        let mut out: Vec<PkgInfo> = Vec::new();
        for row in it: rows
            invariant
                it.seq() == all,
                out@.len() == it.index(),
                forall|i: int|
                    0 <= i < it.index() ==> (#[trigger] out@[i])@ == (PkgInfoView {
                        attribute: all[i].0@,
                        pname: pname@,
                        version: all[i].1@,
                    }),
        {
            let (attribute, version) = row;
            out.push(PkgInfo { attribute, pname: pname.to_owned(), version });
        }
        out
    }
}

/// Why opening the metadata failed.
#[derive(Clone, Copy, Debug, PartialEq, Eq, Structural)]
pub enum OpenError {
    /// The record store cannot be opened.
    StorageError,
    /// There was no index, and building one failed.
    BuildFailed,
    /// The index did not open, and rebuilding it or opening it afterwards
    /// failed as well.
    IndexUnrecoverable,
    /// The reply does not answer the action that was pending.
    Unexpected,
}

/// Where opening stands: the action whose reply it waits for.
#[derive(Clone, Copy, Debug, PartialEq, Eq, Structural)]
pub enum OpenPhase {
    Start,
    OpeningStore,
    Probing,
    Building,
    Opening,
    Rebuilding,
    Reopening,
    Finished,
}

/// What the caller is to do next.
#[derive(Clone, Copy, Debug, PartialEq, Eq, Structural)]
pub enum OpenAction {
    /// Open the record store.
    OpenStore,
    /// Look whether the index directory exists.
    ProbeIndex,
    /// Destroy the index directory if there is one, and build the index
    /// from the records of the store.
    BuildIndex,
    /// Open the index for reading.
    OpenIndex,
    /// Store and index are open.
    Ready,
    Fail(OpenError),
}

/// What came of the last action.
#[derive(Clone, Copy, Debug, PartialEq, Eq, Structural)]
pub enum OpenReply {
    /// Nothing was done yet.
    Started,
    StoreOpened,
    StoreFailed,
    Exists(bool),
    Built,
    BuildFailed,
    Opened,
    OpenFailed,
}

/// The next phase and action of opening.
///
/// An index that is absent is built. An index that does not open is taken
/// for damaged and rebuilt once; a failure after that is final.
pub open spec fn open_step_of(phase: OpenPhase, reply: OpenReply) -> (OpenPhase, OpenAction) {
    match (phase, reply) {
        (OpenPhase::Start, OpenReply::Started) => (OpenPhase::OpeningStore, OpenAction::OpenStore),
        (OpenPhase::OpeningStore, OpenReply::StoreOpened) => (
            OpenPhase::Probing,
            OpenAction::ProbeIndex,
        ),
        (OpenPhase::OpeningStore, OpenReply::StoreFailed) => (
            OpenPhase::Finished,
            OpenAction::Fail(OpenError::StorageError),
        ),
        (OpenPhase::Probing, OpenReply::Exists(true)) => (
            OpenPhase::Opening,
            OpenAction::OpenIndex,
        ),
        (OpenPhase::Probing, OpenReply::Exists(false)) => (
            OpenPhase::Building,
            OpenAction::BuildIndex,
        ),
        (OpenPhase::Building, OpenReply::Built) => (OpenPhase::Opening, OpenAction::OpenIndex),
        (OpenPhase::Building, OpenReply::BuildFailed) => (
            OpenPhase::Finished,
            OpenAction::Fail(OpenError::BuildFailed),
        ),
        (OpenPhase::Opening, OpenReply::Opened) => (OpenPhase::Finished, OpenAction::Ready),
        (OpenPhase::Opening, OpenReply::OpenFailed) => (
            OpenPhase::Rebuilding,
            OpenAction::BuildIndex,
        ),
        (OpenPhase::Rebuilding, OpenReply::Built) => (
            OpenPhase::Reopening,
            OpenAction::OpenIndex,
        ),
        (OpenPhase::Rebuilding, OpenReply::BuildFailed) => (
            OpenPhase::Finished,
            OpenAction::Fail(OpenError::IndexUnrecoverable),
        ),
        (OpenPhase::Reopening, OpenReply::Opened) => (OpenPhase::Finished, OpenAction::Ready),
        (OpenPhase::Reopening, OpenReply::OpenFailed) => (
            OpenPhase::Finished,
            OpenAction::Fail(OpenError::IndexUnrecoverable),
        ),
        _ => (OpenPhase::Finished, OpenAction::Fail(OpenError::Unexpected)),
    }
}

/// Where opening begins.
pub fn open_start() -> (r: (OpenPhase, OpenReply))
    ensures
        r == (OpenPhase::Start, OpenReply::Started),
{
    (OpenPhase::Start, OpenReply::Started)
}

/// Decides what opening does next, from where it stands and what came of
/// the last action.
pub fn open_step(phase: OpenPhase, reply: OpenReply) -> (r: (OpenPhase, OpenAction))
    ensures
        r == open_step_of(phase, reply),
{
    match (phase, reply) {
        (OpenPhase::Start, OpenReply::Started) => (OpenPhase::OpeningStore, OpenAction::OpenStore),
        (OpenPhase::OpeningStore, OpenReply::StoreOpened) => (
            OpenPhase::Probing,
            OpenAction::ProbeIndex,
        ),
        (OpenPhase::OpeningStore, OpenReply::StoreFailed) => (
            OpenPhase::Finished,
            OpenAction::Fail(OpenError::StorageError),
        ),
        (OpenPhase::Probing, OpenReply::Exists(found)) => {
            if found {
                (OpenPhase::Opening, OpenAction::OpenIndex)
            } else {
                (OpenPhase::Building, OpenAction::BuildIndex)
            }
        },
        (OpenPhase::Building, OpenReply::Built) => (OpenPhase::Opening, OpenAction::OpenIndex),
        (OpenPhase::Building, OpenReply::BuildFailed) => (
            OpenPhase::Finished,
            OpenAction::Fail(OpenError::BuildFailed),
        ),
        (OpenPhase::Opening, OpenReply::Opened) => (OpenPhase::Finished, OpenAction::Ready),
        (OpenPhase::Opening, OpenReply::OpenFailed) => (
            OpenPhase::Rebuilding,
            OpenAction::BuildIndex,
        ),
        (OpenPhase::Rebuilding, OpenReply::Built) => (
            OpenPhase::Reopening,
            OpenAction::OpenIndex,
        ),
        (OpenPhase::Rebuilding, OpenReply::BuildFailed) => (
            OpenPhase::Finished,
            OpenAction::Fail(OpenError::IndexUnrecoverable),
        ),
        (OpenPhase::Reopening, OpenReply::Opened) => (OpenPhase::Finished, OpenAction::Ready),
        (OpenPhase::Reopening, OpenReply::OpenFailed) => (
            OpenPhase::Finished,
            OpenAction::Fail(OpenError::IndexUnrecoverable),
        ),
        _ => (OpenPhase::Finished, OpenAction::Fail(OpenError::Unexpected)),
    }
}

/// The index directory of a store, as opening finds it.
pub enum IndexState {
    /// There is no directory.
    Absent,
    /// There is a directory, and it does not open.
    Damaged,
    /// The directory opens and holds these documents.
    Holds(Seq<IndexDocumentView>),
}

/// A record store and its index directory.
pub struct StoreWorld {
    pub records: Seq<PackageRecordView>,
    pub index: IndexState,
}

/// What an action does to a world whose store opens and whose builds go
/// through, and the reply it gives.
pub open spec fn perform_open(w: StoreWorld, action: OpenAction) -> (StoreWorld, OpenReply) {
    match action {
        OpenAction::OpenStore => (w, OpenReply::StoreOpened),
        OpenAction::ProbeIndex => (w, OpenReply::Exists(!(w.index is Absent))),
        OpenAction::BuildIndex => (
            StoreWorld { index: IndexState::Holds(documents_of(w.records)), ..w },
            OpenReply::Built,
        ),
        OpenAction::OpenIndex => (
            w,
            if w.index is Holds {
                OpenReply::Opened
            } else {
                OpenReply::OpenFailed
            },
        ),
        OpenAction::Ready => (w, OpenReply::Started),
        OpenAction::Fail(_) => (w, OpenReply::Started),
    }
}

/// How opening went: the world it left, and how it ended, if it did.
pub struct OpenTrace {
    pub world: StoreWorld,
    pub end: Option<Result<(), OpenError>>,
}

/// Runs the steps of opening against a world, for at most `fuel` actions.
pub open spec fn drive_open(w: StoreWorld, phase: OpenPhase, reply: OpenReply, fuel: nat) -> OpenTrace
    decreases fuel,
{
    if fuel == 0 {
        OpenTrace { world: w, end: None }
    } else {
        let (next, action) = open_step_of(phase, reply);
        match action {
            OpenAction::Ready => OpenTrace { world: w, end: Some(Ok(())) },
            OpenAction::Fail(e) => OpenTrace { world: w, end: Some(Err(e)) },
            _ => {
                let (w2, r2) = perform_open(w, action);
                drive_open(w2, next, r2, (fuel - 1) as nat)
            },
        }
    }
}

/// Opening the metadata of a world, from the start.
pub open spec fn opened(w: StoreWorld) -> OpenTrace {
    drive_open(w, OpenPhase::Start, OpenReply::Started, 8)
}

/// Opening a store whose index directory was deleted or damaged rebuilds
/// the index and ends well, and the index it leaves is the one a first
/// build makes from the same records.
pub proof fn lemma_open_recovers(w: StoreWorld)
    requires
        w.index is Absent || w.index is Damaged,
    ensures
        opened(w).end == Some(Ok::<(), OpenError>(())),
        opened(w).world.index == IndexState::Holds(documents_of(w.records)),
        opened(w).world.index == opened(StoreWorld { index: IndexState::Absent, ..w }).world.index,
        opened(w).world.records == w.records,
{
    reveal_with_fuel(drive_open, 8);
}

/// How far opening has come.
pub open spec fn open_progress(phase: OpenPhase) -> nat {
    match phase {
        OpenPhase::Start => 0,
        OpenPhase::OpeningStore => 1,
        OpenPhase::Probing => 2,
        OpenPhase::Building => 3,
        OpenPhase::Opening => 4,
        OpenPhase::Rebuilding => 5,
        OpenPhase::Reopening => 6,
        OpenPhase::Finished => 7,
    }
}

/// Whatever the reply, a step moves opening on, and opening that has
/// finished stays so: the index is built at most twice and opened at most
/// twice.
pub proof fn lemma_open_step_moves_on(phase: OpenPhase, reply: OpenReply)
    ensures
        phase != OpenPhase::Finished ==> open_progress(open_step_of(phase, reply).0)
            > open_progress(phase),
        open_step_of(OpenPhase::Finished, reply).0 == OpenPhase::Finished,
        open_step_of(phase, reply).0 == OpenPhase::Finished <==> open_step_of(phase, reply).1
            == OpenAction::Ready || open_step_of(phase, reply).1 is Fail,
{
}

/// Opening always ends.
pub proof fn lemma_open_ends(w: StoreWorld)
    ensures
        opened(w).end is Some,
{
    reveal_with_fuel(drive_open, 8);
}

/// Opening a store whose index opens leaves the index as it is.
pub proof fn lemma_open_keeps_good_index(w: StoreWorld)
    requires
        w.index is Holds,
    ensures
        opened(w).end == Some(Ok::<(), OpenError>(())),
        opened(w).world == w,
{
    reveal_with_fuel(drive_open, 8);
}

/// An index is rebuilt at most once: a build or an open that fails after a
/// rebuild ends opening with `IndexUnrecoverable`.
pub proof fn lemma_second_failure_is_final(reply: OpenReply)
    requires
        reply == OpenReply::BuildFailed || reply == OpenReply::OpenFailed,
    ensures
        reply == OpenReply::BuildFailed ==> open_step_of(OpenPhase::Rebuilding, reply).1
            == OpenAction::Fail(OpenError::IndexUnrecoverable),
        reply == OpenReply::OpenFailed ==> open_step_of(OpenPhase::Reopening, reply).1
            == OpenAction::Fail(OpenError::IndexUnrecoverable),
{
}

} // verus!
