//! Hybrid search: the plan of clauses a query compiles to, and the ranking
//! pass that turns scored candidates into the final result list.
//!
//! Scores are carried as `u32` keys: the IEEE-754 single-precision bit
//! pattern of a non-negative score. For such values the order of the keys is
//! the order of the scores, so ranking needs no arithmetic on them.

use crate::metadata::index::{document_of, PackageRecordView};
use crate::text::{from_chars, lowercase, lowercase_of, opt, slice, to_chars, trim, trim_chars};
use vstd::prelude::*;

verus! {

/// Characters in one n-gram.
pub const GRAM: usize = 3;

/// Key of the score ten, the threshold a query has unless it names another.
pub const DEFAULT_SCORE_THRESHOLD: u32 = 0x4120_0000;

/// The weights of the clauses and the over-fetch factor.
#[derive(Clone, Copy, Debug)]
pub struct Tuning {
    /// Weight of a verbatim attribute match.
    pub exact_boost: u32,
    /// Weight of a fuzzy match on the attribute text.
    pub attribute_boost: u32,
    /// Weight of a fuzzy match on the package name.
    pub pname_boost: u32,
    /// Weight of a fuzzy match on the description.
    pub description_boost: u32,
    /// How many times `limit` candidates are fetched before ranking.
    pub overfetch: usize,
}

impl Default for Tuning {
    fn default() -> (t: Tuning)
        ensures
            t.exact_boost == 1000,
            t.attribute_boost == 200,
            t.pname_boost == 150,
            t.description_boost == 5,
            t.overfetch == 4,
    {
        Tuning {
            exact_boost: 1000,
            attribute_boost: 200,
            pname_boost: 150,
            description_boost: 5,
            overfetch: 4,
        }
    }
}

/// A query as a caller states it.
#[derive(Debug)]
pub struct SearchQuery<'a> {
    pub query: &'a str,
    pub limit: usize,
    /// Key of the lowest adjusted score a result may have.
    pub score_threshold: u32,
}

impl<'a> Default for SearchQuery<'a> {
    fn default() -> (q: SearchQuery<'a>)
        ensures
            q.query@ == Seq::<char>::empty(),
            q.limit == 10,
            q.score_threshold == DEFAULT_SCORE_THRESHOLD,
    {
        let query = "";
        proof {
            reveal_strlit("");
        }
        SearchQuery { query, limit: 10, score_threshold: DEFAULT_SCORE_THRESHOLD }
    }
}

/// The default-tokenized field a fuzzy clause is matched against.
#[derive(Clone, Copy, Debug, PartialEq, Eq, Structural)]
pub enum MatchField {
    Attribute,
    Pname,
    Description,
}

/// One way a document can match. A plan is the disjunction of its clauses:
/// a document matching any of them is a candidate, and the scores of the
/// clauses it matches add up.
#[derive(Debug)]
pub enum Clause {
    /// The un-tokenized exact-match field equals `term`.
    Exact { term: String, boost: u32 },
    /// The words of `text`, parsed leniently, each within `distance` edits
    /// of a word of `field`.
    Fuzzy { field: MatchField, text: String, distance: u8, transpositions: bool, boost: u32 },
    /// The n-gram field holds `term`.
    Ngram { term: String },
}

/// What a `Clause` holds, as plain values.
pub enum ClauseView {
    Exact { term: Seq<char>, boost: u32 },
    Fuzzy { field: MatchField, text: Seq<char>, distance: u8, transpositions: bool, boost: u32 },
    Ngram { term: Seq<char> },
}

impl View for Clause {
    type V = ClauseView;

    open spec fn view(&self) -> ClauseView {
        match self {
            Clause::Exact { term, boost } => ClauseView::Exact { term: term@, boost: *boost },
            Clause::Fuzzy { field, text, distance, transpositions, boost } => ClauseView::Fuzzy {
                field: *field,
                text: text@,
                distance: *distance,
                transpositions: *transpositions,
                boost: *boost,
            },
            Clause::Ngram { term } => ClauseView::Ngram { term: term@ },
        }
    }
}

/// The views of a run of clauses.
pub open spec fn clause_views(s: Seq<Clause>) -> Seq<ClauseView> {
    s.map_values(|c: Clause| c@)
}

/// What the index is asked: the clauses, and how many candidates to fetch.
#[derive(Debug)]
pub struct QueryPlan {
    pub clauses: Vec<Clause>,
    pub fetch: usize,
    /// Number of characters of the trimmed, lower-cased query, which the
    /// length penalty of a candidate is taken against.
    pub query_len: usize,
}

/// Every run of `GRAM` neighbouring characters of `q`, from left to right;
/// none when `q` is shorter than that.
pub open spec fn grams(q: Seq<char>) -> Seq<Seq<char>> {
    Seq::new(
        if q.len() >= GRAM {
            (q.len() - GRAM + 1) as nat
        } else {
            0
        },
        |i: int| q.subrange(i, i + GRAM),
    )
}

/// The fuzzy clause on one field: one edit, a transposition counting as one.
pub open spec fn fuzzy(field: MatchField, q: Seq<char>, boost: u32) -> ClauseView {
    ClauseView::Fuzzy { field, text: q, distance: 1, transpositions: true, boost }
}

/// The clauses of a trimmed, lower-cased query: the exact clause, the three
/// fuzzy clauses, then one n-gram clause for each of its n-grams.
pub open spec fn clauses_of(q: Seq<char>, t: Tuning) -> Seq<ClauseView> {
    seq![
        ClauseView::Exact { term: q, boost: t.exact_boost },
        fuzzy(MatchField::Attribute, q, t.attribute_boost),
        fuzzy(MatchField::Pname, q, t.pname_boost),
        fuzzy(MatchField::Description, q, t.description_boost),
    ] + grams(q).map_values(|g: Seq<char>| ClauseView::Ngram { term: g })
}

/// `limit` times the over-fetch factor, or the largest `usize` where the
/// product does not fit.
pub open spec fn fetch_of(limit: usize, t: Tuning) -> usize {
    if limit * t.overfetch <= usize::MAX {
        (limit * t.overfetch) as usize
    } else {
        usize::MAX
    }
}

/// One hit of a search, ready to hand to a caller.
#[derive(Debug)]
pub struct SearchResult {
    pub attribute: String,
    pub version: Option<String>,
    pub pname: Option<String>,
    pub description: Option<String>,
    pub broken: bool,
    pub insecure: bool,
    pub unfree: bool,
    /// Key of the adjusted score.
    pub score: u32,
}

/// What a `SearchResult` holds, as plain values.
pub struct SearchResultView {
    pub attribute: Seq<char>,
    pub version: Option<Seq<char>>,
    pub pname: Option<Seq<char>>,
    pub description: Option<Seq<char>>,
    pub broken: bool,
    pub insecure: bool,
    pub unfree: bool,
    pub score: u32,
}

impl View for SearchResult {
    type V = SearchResultView;

    open spec fn view(&self) -> SearchResultView {
        SearchResultView {
            attribute: self.attribute@,
            version: opt(self.version),
            pname: opt(self.pname),
            description: opt(self.description),
            broken: self.broken,
            insecure: self.insecure,
            unfree: self.unfree,
            score: self.score,
        }
    }
}

/// The views of a run of results.
pub open spec fn views(s: Seq<SearchResult>) -> Seq<SearchResultView> {
    s.map_values(|r: SearchResult| r@)
}

/// The candidates whose score reaches the threshold, in retrieval order.
pub open spec fn passing(c: Seq<SearchResultView>, threshold: u32) -> Seq<SearchResultView> {
    c.filter(|r: SearchResultView| r.score >= threshold)
}

/// `x` put into a descending run, in front of the first element that does
/// not score above it.
pub open spec fn place(x: SearchResultView, sorted: Seq<SearchResultView>) -> Seq<
    SearchResultView,
>
    decreases sorted.len(),
{
    if sorted.len() == 0 || sorted[0].score <= x.score {
        seq![x] + sorted
    } else {
        seq![sorted[0]] + place(x, sorted.drop_first())
    }
}

/// The candidates by descending score; candidates with equal scores keep
/// their retrieval order.
pub open spec fn by_score(c: Seq<SearchResultView>) -> Seq<SearchResultView>
    decreases c.len(),
{
    if c.len() == 0 {
        Seq::empty()
    } else {
        place(c[0], by_score(c.drop_first()))
    }
}

/// The final result list: the passing candidates by descending score, cut
/// to `limit` entries.
pub open spec fn ranked(c: Seq<SearchResultView>, limit: nat, threshold: u32) -> Seq<
    SearchResultView,
> {
    let s = by_score(passing(c, threshold));
    if limit < s.len() {
        s.take(limit as int)
    } else {
        s
    }
}

/// Descending by score.
pub open spec fn descending(s: Seq<SearchResultView>) -> bool {
    forall|i: int, j: int| 0 <= i < j < s.len() ==> s[i].score >= s[j].score
}

proof fn lemma_place_at(x: SearchResultView, s: Seq<SearchResultView>, at: int)
    requires
        0 <= at <= s.len(),
        forall|k: int| 0 <= k < at ==> s[k].score > x.score,
        at < s.len() ==> s[at].score <= x.score,
    ensures
        place(x, s) == s.insert(at, x),
    decreases at,
{
    if at == 0 {
        assert(seq![x] + s =~= s.insert(0, x));
    } else {
        let t = s.drop_first();
        assert forall|k: int| 0 <= k < at - 1 implies t[k].score > x.score by {
            assert(t[k] == s[k + 1]);
        }
        lemma_place_at(x, t, at - 1);
        assert(seq![s[0]] + t.insert(at - 1, x) =~= s.insert(at, x));
    }
}

proof fn lemma_place_props(x: SearchResultView, s: Seq<SearchResultView>)
    requires
        descending(s),
    ensures
        descending(place(x, s)),
        place(x, s).len() == s.len() + 1,
        place(x, s).to_multiset() == s.to_multiset().insert(x),
    decreases s.len(),
{
    broadcast use vstd::seq_lib::group_to_multiset_ensures;

    if s.len() == 0 || s[0].score <= x.score {
        let r = seq![x] + s;
        assert(r =~= s.insert(0, x));
        assert forall|i: int, j: int| 0 <= i < j < r.len() implies r[i].score >= r[j].score by {
            if i > 0 {
                assert(r[i] == s[i - 1] && r[j] == s[j - 1]);
            } else {
                assert(r[j] == s[j - 1]);
                assert(s[0].score >= s[j - 1].score);
            }
        }
    } else {
        let t = s.drop_first();
        assert(descending(t)) by {
            assert forall|i: int, j: int| 0 <= i < j < t.len() implies t[i].score
                >= t[j].score by {
                assert(t[i] == s[i + 1] && t[j] == s[j + 1]);
            }
        }
        lemma_place_props(x, t);
        let p = place(x, t);
        let r = seq![s[0]] + p;
        assert forall|i: int, j: int| 0 <= i < j < r.len() implies r[i].score >= r[j].score by {
            if i > 0 {
                assert(r[i] == p[i - 1] && r[j] == p[j - 1]);
            } else {
                assert(r[j] == p[j - 1]);
                assert(p.to_multiset().count(p[j - 1]) > 0);
                if p[j - 1] != x {
                    assert(t.to_multiset().count(p[j - 1]) > 0);
                    assert(t.contains(p[j - 1]));
                    let k = choose|k: int| 0 <= k < t.len() && t[k] == p[j - 1];
                    assert(t[k] == s[k + 1]);
                }
            }
        }
        assert(r =~= p.insert(0, s[0]));
        assert(s =~= t.insert(0, s[0]));
        assert(r.to_multiset() =~= s.to_multiset().insert(x));
    }
}

proof fn lemma_place_keeps_order(x: SearchResultView, s: Seq<SearchResultView>, score: u32)
    ensures
        place(x, s).filter(|r: SearchResultView| r.score == score) == if x.score == score {
            seq![x] + s.filter(|r: SearchResultView| r.score == score)
        } else {
            s.filter(|r: SearchResultView| r.score == score)
        },
    decreases s.len(),
{
    let same = |r: SearchResultView| r.score == score;
    if s.len() == 0 || s[0].score <= x.score {
        s.lemma_filter_prepend(x, same);
        assert(Seq::<SearchResultView>::empty() + s.filter(same) =~= s.filter(same));
    } else {
        let t = s.drop_first();
        lemma_place_keeps_order(x, t, score);
        place(x, t).lemma_filter_prepend(s[0], same);
        t.lemma_filter_prepend(s[0], same);
        assert(s =~= seq![s[0]] + t);
        assert(Seq::<SearchResultView>::empty() + t.filter(same) =~= t.filter(same));
        assert(Seq::<SearchResultView>::empty() + (seq![x] + t.filter(same)) =~= seq![x]
            + t.filter(same));
    }
}

/// Ranking is stable: the candidates that share a score stand in the
/// ranking in the order in which they were retrieved.
pub proof fn lemma_by_score_stable(c: Seq<SearchResultView>, score: u32)
    ensures
        by_score(c).filter(|r: SearchResultView| r.score == score) == c.filter(
            |r: SearchResultView| r.score == score,
        ),
    decreases c.len(),
{
    let same = |r: SearchResultView| r.score == score;
    if c.len() == 0 {
        assert(c =~= Seq::empty());
    } else {
        let t = c.drop_first();
        lemma_by_score_stable(t, score);
        lemma_place_keeps_order(c[0], by_score(t), score);
        t.lemma_filter_prepend(c[0], same);
        assert(c =~= seq![c[0]] + t);
        assert(Seq::<SearchResultView>::empty() + t.filter(same) =~= t.filter(same));
    }
}

/// The ranking is descending, and holds exactly the candidates it was given.
pub proof fn lemma_by_score_props(c: Seq<SearchResultView>)
    ensures
        descending(by_score(c)),
        by_score(c).len() == c.len(),
        by_score(c).to_multiset() == c.to_multiset(),
    decreases c.len(),
{
    broadcast use vstd::seq_lib::group_to_multiset_ensures;

    if c.len() == 0 {
        assert(c =~= Seq::empty());
    } else {
        lemma_by_score_props(c.drop_first());
        lemma_place_props(c[0], by_score(c.drop_first()));
        assert(c =~= c.drop_first().insert(0, c[0]));
    }
}

/// One value stored under a field of a retrieved document.
#[derive(Debug)]
pub enum StoredValue {
    Text(String),
    Number(u64),
    Other,
}

/// What a retrieved document holds under one field name.
#[derive(Debug)]
pub enum StoredField {
    /// The document has no such field.
    Missing,
    /// The field holds something that is not a list of values.
    NotArray,
    Array(Vec<StoredValue>),
}

/// The stored fields of a retrieved document.
#[derive(Debug)]
pub struct StoredDocument {
    pub attribute: StoredField,
    pub version: StoredField,
    pub pname: StoredField,
    pub description: StoredField,
    pub broken: StoredField,
    pub insecure: StoredField,
    pub unfree: StoredField,
}

/// Why a retrieved document cannot be read as a result.
#[derive(Clone, Copy, Debug, PartialEq, Eq, Structural)]
pub enum DecodeError {
    /// A required field is not in the document.
    Missing,
    /// The field is not a list.
    NotArray,
    /// The list does not hold exactly one value.
    NotSingle,
    /// The value of a required text field is not text.
    NotText,
}

/// The one value of a field, or why it has none.
pub open spec fn single(field: StoredField) -> Result<StoredValue, DecodeError> {
    match field {
        StoredField::Missing => Err(DecodeError::Missing),
        StoredField::NotArray => Err(DecodeError::NotArray),
        StoredField::Array(v) => if v@.len() == 1 {
            Ok(v@[0])
        } else {
            Err(DecodeError::NotSingle)
        },
    }
}

/// A required text: the field's one value, which must be text.
pub open spec fn text_of(field: StoredField) -> Result<Seq<char>, DecodeError> {
    match single(field) {
        Ok(StoredValue::Text(s)) => Ok(s@),
        Ok(_) => Err(DecodeError::NotText),
        Err(e) => Err(e),
    }
}

/// An optional text: absent where the field is missing, where its one
/// value is not text, and where the text is empty.
pub open spec fn optional_text_of(field: StoredField) -> Result<Option<Seq<char>>, DecodeError> {
    match single(field) {
        Ok(StoredValue::Text(s)) => if s@.len() == 0 {
            Ok(None)
        } else {
            Ok(Some(s@))
        },
        Ok(_) => Ok(None),
        Err(DecodeError::Missing) => Ok(None),
        Err(e) => Err(e),
    }
}

/// A flag: set where the field's one value is the text `1` or the number
/// one; clear for any other value and where the field is missing.
pub open spec fn flag_of(field: StoredField) -> Result<bool, DecodeError> {
    match single(field) {
        Ok(StoredValue::Text(s)) => Ok(s@ == seq!['1']),
        Ok(StoredValue::Number(n)) => Ok(n == 1),
        Ok(StoredValue::Other) => Ok(false),
        Err(DecodeError::Missing) => Ok(false),
        Err(e) => Err(e),
    }
}

/// The result a document is read as, given the key of its adjusted score:
/// the first field that cannot be read decides the error.
pub open spec fn result_of(doc: StoredDocument, score: u32) -> Result<
    SearchResultView,
    DecodeError,
> {
    match text_of(doc.attribute) {
        Err(e) => Err(e),
        Ok(attribute) => match optional_text_of(doc.version) {
            Err(e) => Err(e),
            Ok(version) => match optional_text_of(doc.pname) {
                Err(e) => Err(e),
                Ok(pname) => match optional_text_of(doc.description) {
                    Err(e) => Err(e),
                    Ok(description) => match flag_of(doc.broken) {
                        Err(e) => Err(e),
                        Ok(broken) => match flag_of(doc.insecure) {
                            Err(e) => Err(e),
                            Ok(insecure) => match flag_of(doc.unfree) {
                                Err(e) => Err(e),
                                Ok(unfree) => Ok(
                                    SearchResultView {
                                        attribute,
                                        version,
                                        pname,
                                        description,
                                        broken,
                                        insecure,
                                        unfree,
                                        score,
                                    },
                                ),
                            },
                        },
                    },
                },
            },
        },
    }
}

fn take_single(field: StoredField) -> (r: Result<StoredValue, DecodeError>)
    ensures
        r == single(field),
{
    match field {
        StoredField::Missing => Err(DecodeError::Missing),
        StoredField::NotArray => Err(DecodeError::NotArray),
        StoredField::Array(mut v) => {
            if v.len() == 1 {
                Ok(v.pop().unwrap())
            } else {
                Err(DecodeError::NotSingle)
            }
        },
    }
}

/// Reads a required text field.
pub fn deserialize_string(field: StoredField) -> (r: Result<String, DecodeError>)
    ensures
        match r {
            Ok(s) => text_of(field) == Ok::<Seq<char>, DecodeError>(s@),
            Err(e) => text_of(field) == Err::<Seq<char>, DecodeError>(e),
        },
{
    match take_single(field) {
        Ok(StoredValue::Text(s)) => Ok(s),
        Ok(_) => Err(DecodeError::NotText),
        Err(e) => Err(e),
    }
}

/// Reads an optional text field.
pub fn deserialize_string_option(field: StoredField) -> (r: Result<Option<String>, DecodeError>)
    ensures
        match r {
            Ok(s) => optional_text_of(field) == Ok::<Option<Seq<char>>, DecodeError>(opt(s)),
            Err(e) => optional_text_of(field) == Err::<Option<Seq<char>>, DecodeError>(e),
        },
{
    match take_single(field) {
        Ok(StoredValue::Text(s)) => {
            if s.as_str().unicode_len() == 0 {
                Ok(None)
            } else {
                Ok(Some(s))
            }
        },
        Ok(_) => Ok(None),
        Err(DecodeError::Missing) => Ok(None),
        Err(e) => Err(e),
    }
}

/// Reads a flag field.
pub fn deserialize_bool(field: StoredField) -> (r: Result<bool, DecodeError>)
    ensures
        r == flag_of(field),
{
    match take_single(field) {
        Ok(StoredValue::Text(s)) => {
            let chars = to_chars(s.as_str());
            let set = chars.len() == 1 && chars[0] == '1';
            proof {
                if set {
                    assert(s@ =~= seq!['1']);
                }
            }
            Ok(set)
        },
        Ok(StoredValue::Number(n)) => Ok(n == 1),
        Ok(StoredValue::Other) => Ok(false),
        Err(DecodeError::Missing) => Ok(false),
        Err(e) => Err(e),
    }
}

/// Reads a retrieved document as a search result with the given score key.
pub fn materialize(doc: StoredDocument, score: u32) -> (r: Result<SearchResult, DecodeError>)
    ensures
        match r {
            Ok(s) => result_of(doc, score) == Ok::<SearchResultView, DecodeError>(s@),
            Err(e) => result_of(doc, score) == Err::<SearchResultView, DecodeError>(e),
        },
{
    let StoredDocument { attribute, version, pname, description, broken, insecure, unfree } = doc;
    let attribute = match deserialize_string(attribute) {
        Ok(v) => v,
        Err(e) => {
            return Err(e);
        },
    };
    let version = match deserialize_string_option(version) {
        Ok(v) => v,
        Err(e) => {
            return Err(e);
        },
    };
    let pname = match deserialize_string_option(pname) {
        Ok(v) => v,
        Err(e) => {
            return Err(e);
        },
    };
    let description = match deserialize_string_option(description) {
        Ok(v) => v,
        Err(e) => {
            return Err(e);
        },
    };
    let broken = match deserialize_bool(broken) {
        Ok(v) => v,
        Err(e) => {
            return Err(e);
        },
    };
    let insecure = match deserialize_bool(insecure) {
        Ok(v) => v,
        Err(e) => {
            return Err(e);
        },
    };
    let unfree = match deserialize_bool(unfree) {
        Ok(v) => v,
        Err(e) => {
            return Err(e);
        },
    };
    Ok(SearchResult { attribute, version, pname, description, broken, insecure, unfree, score })
}

/// The results that retrieved documents are read as, each with the key of
/// its adjusted score, in the order of retrieval; the first document that
/// cannot be read fails them all.
pub open spec fn results_of(hits: Seq<(StoredDocument, u32)>) -> Result<
    Seq<SearchResultView>,
    DecodeError,
>
    decreases hits.len(),
{
    if hits.len() == 0 {
        Ok(Seq::empty())
    } else {
        match results_of(hits.drop_last()) {
            Err(e) => Err(e),
            Ok(before) => match result_of(hits.last().0, hits.last().1) {
                Err(e) => Err(e),
                Ok(r) => Ok(before.push(r)),
            },
        }
    }
}

proof fn lemma_unreadable_sticks(hits: Seq<(StoredDocument, u32)>, i: int)
    requires
        0 <= i <= hits.len(),
        results_of(hits.take(i)) is Err,
    ensures
        results_of(hits) == results_of(hits.take(i)),
    decreases hits.len() - i,
{
    if i < hits.len() {
        assert(hits.take(i + 1).drop_last() =~= hits.take(i));
        lemma_unreadable_sticks(hits, i + 1);
    } else {
        assert(hits.take(i) =~= hits);
    }
}

/// Reads the retrieved documents as candidates for ranking.
pub fn candidates(hits: Vec<(StoredDocument, u32)>) -> (r: Result<Vec<SearchResult>, DecodeError>)
    ensures
        match r {
            Ok(out) => results_of(hits@) == Ok::<Seq<SearchResultView>, DecodeError>(views(out@)),
            Err(e) => results_of(hits@) == Err::<Seq<SearchResultView>, DecodeError>(e),
        },
{
    let ghost all = hits@;
    let mut out: Vec<SearchResult> = Vec::new();
    proof {
        assert(all.take(0) =~= Seq::empty());
        assert(views(out@) =~= Seq::empty());
    }
    for hit in it: hits
        invariant
            it.seq() == all,
            results_of(all.take(it.index() as int)) == Ok::<Seq<SearchResultView>, DecodeError>(
                views(out@),
            ),
    {
        let ghost i = it.index() as int;
        let ghost before = views(out@);
        proof {
            assert(all.take(i + 1).drop_last() =~= all.take(i));
            assert(all.take(i + 1).last() == hit);
        }
        let (doc, score) = hit;
        match materialize(doc, score) {
            Ok(r) => {
                out.push(r);
                proof {
                    assert(views(out@) =~= before.push(r@));
                }
            },
            Err(e) => {
                proof {
                    lemma_unreadable_sticks(all, i + 1);
                }
                return Err(e);
            },
        }
    }
    proof {
        assert(all.take(all.len() as int) =~= all);
    }
    Ok(out)
}

/// The n-grams of `q`.
pub fn ngrams(q: &Vec<char>) -> (out: Vec<Vec<char>>)
    ensures
        crate::text::rows(out@) == grams(q@),
{
    let mut out: Vec<Vec<char>> = Vec::new();
    if q.len() < GRAM {
        proof {
            assert(crate::text::rows(out@) =~= grams(q@));
        }
        return out;
    }
    let n: usize = q.len() - GRAM + 1;
    let mut i: usize = 0;
    while i < n
        invariant
            q.len() >= GRAM,
            n == q.len() - GRAM + 1,
            i <= n,
            crate::text::rows(out@) == grams(q@).take(i as int),
        decreases n - i,
    {
        let g = slice(q, i, i + GRAM);
        let ghost before = crate::text::rows(out@);
        out.push(g);
        proof {
            assert(crate::text::rows(out@) =~= before.push(g@));
            assert(grams(q@).take(i + 1) =~= grams(q@).take(i as int).push(grams(q@)[i as int]));
        }
        i += 1;
    }
    proof {
        assert(grams(q@).take(n as int) =~= grams(q@));
    }
    out
}

/// The clauses of a query that is already trimmed and lower-cased.
pub fn clauses(q: &str, tuning: &Tuning) -> (out: Vec<Clause>)
    ensures
        clause_views(out@) == clauses_of(q@, *tuning),
{
    let chars = to_chars(q);
    let mut out: Vec<Clause> = Vec::new();
    out.push(Clause::Exact { term: from_chars(&chars), boost: tuning.exact_boost });
    out.push(
        Clause::Fuzzy {
            field: MatchField::Attribute,
            text: from_chars(&chars),
            distance: 1,
            transpositions: true,
            boost: tuning.attribute_boost,
        },
    );
    out.push(
        Clause::Fuzzy {
            field: MatchField::Pname,
            text: from_chars(&chars),
            distance: 1,
            transpositions: true,
            boost: tuning.pname_boost,
        },
    );
    out.push(
        Clause::Fuzzy {
            field: MatchField::Description,
            text: from_chars(&chars),
            distance: 1,
            transpositions: true,
            boost: tuning.description_boost,
        },
    );
    let windows = ngrams(&chars);
    let ghost head = clause_views(out@);
    let ghost tail = grams(q@).map_values(|g: Seq<char>| ClauseView::Ngram { term: g });
    let mut i: usize = 0;
    while i < windows.len()
        invariant
            i <= windows.len(),
            crate::text::rows(windows@) == grams(q@),
            tail == grams(q@).map_values(|g: Seq<char>| ClauseView::Ngram { term: g }),
            clause_views(out@) == head + tail.take(i as int),
        decreases windows.len() - i,
    {
        let ghost before = clause_views(out@);
        let term = from_chars(&windows[i]);
        proof {
            assert(crate::text::rows(windows@)[i as int] == windows@[i as int]@);
        }
        out.push(Clause::Ngram { term });
        proof {
            assert(clause_views(out@) =~= before.push(tail[i as int]));
            assert(tail.take(i + 1) =~= tail.take(i as int).push(tail[i as int]));
        }
        i += 1;
    }
    proof {
        assert(tail.take(windows@.len() as int) =~= tail);
        assert(head =~= seq![
            ClauseView::Exact { term: q@, boost: tuning.exact_boost },
            fuzzy(MatchField::Attribute, q@, tuning.attribute_boost),
            fuzzy(MatchField::Pname, q@, tuning.pname_boost),
            fuzzy(MatchField::Description, q@, tuning.description_boost),
        ]);
    }
    out
}

/// How many candidates to fetch for `limit` results.
pub fn fetch_limit(limit: usize, tuning: &Tuning) -> (n: usize)
    ensures
        n == fetch_of(limit, *tuning),
{
    let f: usize = tuning.overfetch;
    if f == 0 {
        assert(limit * f == 0) by (nonlinear_arith)
            requires
                f == 0,
        ;
        0
    } else if limit > usize::MAX / f {
        assert(limit * f > usize::MAX) by (nonlinear_arith)
            requires
                f > 0,
                limit > usize::MAX / f,
        ;
        usize::MAX
    } else {
        assert(limit * f <= usize::MAX) by (nonlinear_arith)
            requires
                f > 0,
                limit <= usize::MAX / f,
        ;
        limit * f
    }
}

/// Compiles a query into its plan. A query that is empty once trimmed has
/// no plan: its result list is empty. Any other query is trimmed,
/// lower-cased once, and turned into clauses.
pub fn compile(query: &str, limit: usize, tuning: &Tuning) -> (plan: Option<QueryPlan>)
    ensures
        trim(query@).len() == 0 <==> plan is None,
        plan matches Some(p) ==> {
            &&& clause_views(p.clauses@) == clauses_of(lowercase_of(trim(query@)), *tuning)
            &&& p.fetch == fetch_of(limit, *tuning)
            &&& p.query_len == lowercase_of(trim(query@)).len()
        },
{
    let trimmed = trim_chars(&to_chars(query));
    if trimmed.len() == 0 {
        return None;
    }
    let lowered = lowercase(from_chars(&trimmed).as_str());
    Some(
        QueryPlan {
            clauses: clauses(lowered.as_str(), tuning),
            fetch: fetch_limit(limit, tuning),
            query_len: lowered.as_str().unicode_len(),
        },
    )
}

/// Whether the length penalty touches a candidate. The adjusted score of a
/// candidate is its raw score divided by one plus the natural logarithm of
/// the ratio of the attribute's length to the query's, the ratio taken as
/// one where it is less. So a candidate whose attribute has no more
/// characters than the query keeps its raw score, and only for a longer
/// one is there a division to make.
pub fn is_penalised(attribute: &str, query_len: usize) -> (b: bool)
    ensures
        b == (attribute@.len() > query_len),
{
    attribute.unicode_len() > query_len
}

/// Finishes a search: the result list for the candidates that the index
/// returned for the query's plan, each carrying its adjusted score. A query
/// that is empty once trimmed gives an empty list whatever the candidates.
pub fn search(sq: &SearchQuery, candidates: Vec<SearchResult>) -> (out: Vec<SearchResult>)
    ensures
        views(out@) == if trim(sq.query@).len() == 0 {
            Seq::<SearchResultView>::empty()
        } else {
            ranked(views(candidates@), sq.limit as nat, sq.score_threshold)
        },
{
    let trimmed = trim_chars(&to_chars(sq.query));
    if trimmed.len() == 0 {
        let out: Vec<SearchResult> = Vec::new();
        proof {
            assert(views(out@) =~= Seq::<SearchResultView>::empty());
        }
        return out;
    }
    rank(candidates, sq.limit, sq.score_threshold)
}

/// Ranks scored candidates: drops those under the threshold, orders the rest
/// by descending score with ties in retrieval order, and keeps at most
/// `limit` of them.
pub fn rank(candidates: Vec<SearchResult>, limit: usize, score_threshold: u32) -> (out: Vec<
    SearchResult,
>)
    ensures
        views(out@) == ranked(views(candidates@), limit as nat, score_threshold),
{
    let ghost all = views(candidates@);
    let mut rest = candidates;
    let mut out: Vec<SearchResult> = Vec::new();
    proof {
        assert(all.skip(all.len() as int) =~= Seq::empty());
        assert(passing(Seq::empty(), score_threshold) =~= Seq::empty());
        assert(views(out@) =~= Seq::empty());
    }
    while rest.len() > 0
        invariant
            rest@.len() <= all.len(),
            views(rest@) == all.take(rest@.len() as int),
            views(out@) == by_score(passing(all.skip(rest@.len() as int), score_threshold)),
        decreases rest.len(),
    {
        let ghost n = rest@.len() as int;
        let ghost before = rest@;
        let ghost tail = all.skip(n);
        let x = rest.pop().unwrap();
        proof {
            assert(x@ == views(before)[n - 1]);
            assert(x@ == all[n - 1]);
            assert(views(rest@) =~= all.take(n - 1));
            let shorter = all.skip(n - 1);
            assert(shorter.drop_first() =~= tail);
            assert(shorter =~= seq![x@] + tail);
            tail.lemma_filter_prepend(x@, |r: SearchResultView| r.score >= score_threshold);
        }
        if x.score >= score_threshold {
            let mut at: usize = 0;
            while at < out.len() && out[at].score > x.score
                invariant
                    at <= out.len(),
                    forall|k: int| 0 <= k < at ==> views(out@)[k].score > x.score,
                decreases out.len() - at,
            {
                at += 1;
            }
            proof {
                let sorted = views(out@);
                lemma_place_at(x@, sorted, at as int);
                let kept = passing(all.skip(n - 1), score_threshold);
                assert(kept.drop_first() =~= passing(tail, score_threshold));
                assert(views(out@.insert(at as int, x)) =~= sorted.insert(at as int, x@));
            }
            out.insert(at, x);
        }
    }
    proof {
        assert(all.skip(0) =~= all);
    }
    out.truncate(limit);
    proof {
        let s = by_score(passing(all, score_threshold));
        if limit < s.len() {
            assert(views(out@) =~= s.take(limit as int));
        }
    }
    out
}

/// No result scores above an earlier one.
pub proof fn lemma_ranked_descending(c: Seq<SearchResultView>, limit: nat, threshold: u32)
    ensures
        descending(ranked(c, limit, threshold)),
        ranked(c, limit, threshold).len() <= limit,
        ranked(c, limit, threshold).len() <= c.len(),
{
    let kept = passing(c, threshold);
    lemma_by_score_props(kept);
    c.lemma_filter_len(|r: SearchResultView| r.score >= threshold);
}

/// Every result is one of the candidates and reaches the threshold.
pub proof fn lemma_ranked_from_candidates(
    c: Seq<SearchResultView>,
    limit: nat,
    threshold: u32,
    i: int,
)
    requires
        0 <= i < ranked(c, limit, threshold).len(),
    ensures
        c.contains(ranked(c, limit, threshold)[i]),
        ranked(c, limit, threshold)[i].score >= threshold,
{
    broadcast use vstd::seq_lib::group_to_multiset_ensures;

    let kept = passing(c, threshold);
    let s = by_score(kept);
    lemma_by_score_props(kept);
    let x = ranked(c, limit, threshold)[i];
    assert(x == s[i]);
    assert(s.to_multiset().count(x) > 0);
    assert(kept.contains(x));
    c.lemma_filter_contains_rev(|r: SearchResultView| r.score >= threshold, x);
    let k = choose|k: int| 0 <= k < kept.len() && kept[k] == x;
    c.lemma_filter_pred(|r: SearchResultView| r.score >= threshold, k);
}

/// A candidate that reaches the threshold is left out only when `limit`
/// results that score at least as high were found.
pub proof fn lemma_ranked_keeps_best(
    c: Seq<SearchResultView>,
    limit: nat,
    threshold: u32,
    x: SearchResultView,
)
    requires
        c.contains(x),
        x.score >= threshold,
        !ranked(c, limit, threshold).contains(x),
    ensures
        ranked(c, limit, threshold).len() == limit,
        forall|i: int|
            0 <= i < limit ==> (#[trigger] ranked(c, limit, threshold)[i]).score >= x.score,
{
    broadcast use vstd::seq_lib::group_to_multiset_ensures;

    let pred = |r: SearchResultView| r.score >= threshold;
    let kept = passing(c, threshold);
    let s = by_score(kept);
    lemma_by_score_props(kept);
    let j = choose|j: int| 0 <= j < c.len() && c[j] == x;
    c.lemma_filter_contains(pred, j);
    assert(kept.contains(x));
    assert(kept.to_multiset().count(x) > 0);
    assert(s.contains(x));
    let p = choose|p: int| 0 <= p < s.len() && s[p] == x;
    let r = ranked(c, limit, threshold);
    if limit >= s.len() {
        assert(r[p] == x);
    } else if p < limit {
        assert(r[p] == x);
    }
}

/// A query that, trimmed and lower-cased, is the lower-cased attribute of a
/// record compiles to a plan whose first clause asks for exactly the term
/// that the record's document is indexed under, with the exact boost.
pub proof fn lemma_exact_clause_meets_document(
    record: PackageRecordView,
    query: Seq<char>,
    tuning: Tuning,
)
    ensures
        lowercase_of(trim(query)) == lowercase_of(record.attribute) ==> clauses_of(
            lowercase_of(trim(query)),
            tuning,
        )[0] == (ClauseView::Exact {
            term: document_of(record).attribute_exact,
            boost: tuning.exact_boost,
        }),
{
}

/// Two texts have an n-gram in common.
pub open spec fn share_gram(a: Seq<char>, b: Seq<char>) -> bool {
    exists|i: int, j: int|
        0 <= i < grams(a).len() && 0 <= j < grams(b).len() && grams(a)[i] == grams(b)[j]
}

proof fn lemma_same_window(a: Seq<char>, i: int, b: Seq<char>, j: int)
    requires
        0 <= i,
        i + GRAM <= a.len(),
        0 <= j,
        j + GRAM <= b.len(),
        a.subrange(i, i + GRAM) =~= b.subrange(j, j + GRAM),
    ensures
        share_gram(a, b),
{
    assert(grams(a)[i] == grams(b)[j]);
}

/// A text of six characters or more has an n-gram in common with the text
/// in which one of its characters is another.
pub proof fn lemma_substitution_shares_gram(a: Seq<char>, at: int, c: char)
    requires
        a.len() >= 6,
        0 <= at < a.len(),
    ensures
        share_gram(a, a.update(at, c)),
{
    if at >= 3 {
        lemma_same_window(a, 0, a.update(at, c), 0);
    } else {
        lemma_same_window(a, 3, a.update(at, c), 3);
    }
}

/// A text of five characters or more has an n-gram in common with the text
/// that has one character more somewhere.
pub proof fn lemma_insertion_shares_gram(a: Seq<char>, at: int, c: char)
    requires
        a.len() >= 5,
        0 <= at <= a.len(),
    ensures
        share_gram(a, a.insert(at, c)),
{
    if at >= 3 {
        lemma_same_window(a, 0, a.insert(at, c), 0);
    } else {
        lemma_same_window(a, 2, a.insert(at, c), 3);
    }
}

/// A text of six characters or more has an n-gram in common with the text
/// that lacks one of its characters.
pub proof fn lemma_deletion_shares_gram(a: Seq<char>, at: int)
    requires
        a.len() >= 6,
        0 <= at < a.len(),
    ensures
        share_gram(a, a.remove(at)),
{
    if at >= 3 {
        lemma_same_window(a, 0, a.remove(at), 0);
    } else {
        lemma_same_window(a, 3, a.remove(at), 2);
    }
}

/// A text of seven characters or more has an n-gram in common with the
/// text in which two of its neighbouring characters have changed places.
pub proof fn lemma_transposition_shares_gram(a: Seq<char>, at: int)
    requires
        a.len() >= 7,
        0 <= at,
        at + 1 < a.len(),
    ensures
        share_gram(a, a.update(at, a[at + 1]).update(at + 1, a[at])),
{
    let b = a.update(at, a[at + 1]).update(at + 1, a[at]);
    if at >= 3 {
        lemma_same_window(a, 0, b, 0);
    } else {
        lemma_same_window(a, 4, b, 4);
    }
}

/// Where a query has an n-gram in common with an attribute, its plan holds
/// an n-gram clause for a term that is among the n-grams of the attribute.
pub proof fn lemma_shared_gram_is_asked_for(attribute: Seq<char>, q: Seq<char>, tuning: Tuning)
    requires
        share_gram(attribute, q),
    ensures
        exists|k: int, i: int|
            0 <= k < clauses_of(q, tuning).len() && 0 <= i < grams(attribute).len()
                && clauses_of(q, tuning)[k] == (ClauseView::Ngram { term: grams(attribute)[i] }),
{
    let (i, j) = choose|i: int, j: int|
        0 <= i < grams(attribute).len() && 0 <= j < grams(q).len() && grams(attribute)[i] == grams(
            q,
        )[j];
    let plan = clauses_of(q, tuning);
    assert(plan[4 + j] == (ClauseView::Ngram { term: grams(attribute)[i] }));
}

/// With a threshold above every candidate's score nothing is returned.
pub proof fn lemma_threshold_above_all(c: Seq<SearchResultView>, limit: nat, threshold: u32)
    requires
        forall|i: int| 0 <= i < c.len() ==> c[i].score < threshold,
    ensures
        ranked(c, limit, threshold) == Seq::<SearchResultView>::empty(),
{
    let pred = |r: SearchResultView| r.score >= threshold;
    let kept = passing(c, threshold);
    if kept.len() > 0 {
        c.lemma_filter_contains_rev(pred, kept[0]);
        c.lemma_filter_pred(pred, 0);
        let k = choose|k: int| 0 <= k < c.len() && c[k] == kept[0];
        assert(false);
    }
    assert(kept =~= Seq::empty());
    assert(ranked(c, limit, threshold) =~= Seq::<SearchResultView>::empty());
}

/// Of two candidates the one with the higher score comes first; with equal
/// scores the one retrieved first does.
pub proof fn lemma_pair_order(a: SearchResultView, b: SearchResultView)
    ensures
        by_score(seq![a, b]) == if a.score >= b.score {
            seq![a, b]
        } else {
            seq![b, a]
        },
{
    let c = seq![a, b];
    let t = c.drop_first();
    assert(t =~= seq![b]);
    assert(t.drop_first() =~= Seq::<SearchResultView>::empty());
    assert(by_score(t.drop_first()) =~= Seq::<SearchResultView>::empty());
    assert(by_score(t) =~= seq![b]) by {
        assert(place(b, Seq::<SearchResultView>::empty()) =~= seq![b]);
    }
    if a.score >= b.score {
        assert(place(a, seq![b]) =~= seq![a, b]);
    } else {
        let s = seq![b];
        assert(s.drop_first() =~= Seq::<SearchResultView>::empty());
        assert(place(a, s.drop_first()) =~= seq![a]);
        assert(place(a, s) =~= seq![b, a]);
    }
}

} // verus!
