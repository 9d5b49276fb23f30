//! The documents of the search index: one per package record, derived from
//! the record alone, so that building twice from the same records gives the
//! same documents.
//!
//! The attribute is stored verbatim and cut into n-grams as it stands, so
//! n-gram matching is case-sensitive on the document side; queries are
//! lower-cased before their n-grams are taken.

use crate::text::{
    copy_opt, first_at, from_chars, lemma_first_at, lowercase, lowercase_of, opt, to_chars,
};
use vstd::prelude::*;

verus! {

/// A row as the record store hands it over: any column may be absent.
#[derive(Debug)]
pub struct RecordRow {
    pub attribute: Option<String>,
    pub pname: Option<String>,
    pub version: Option<String>,
    pub description: Option<String>,
    pub broken: Option<u64>,
    pub insecure: Option<u64>,
    pub unfree: Option<u64>,
}

/// One package of a revision.
#[derive(Debug)]
pub struct PackageRecord {
    /// The unique, dotted key of the package.
    pub attribute: String,
    pub pname: String,
    pub version: String,
    pub description: Option<String>,
    pub broken: bool,
    pub insecure: bool,
    pub unfree: bool,
}

/// What a `PackageRecord` holds, as plain values.
pub struct PackageRecordView {
    pub attribute: Seq<char>,
    pub pname: Seq<char>,
    pub version: Seq<char>,
    pub description: Option<Seq<char>>,
    pub broken: bool,
    pub insecure: bool,
    pub unfree: bool,
}

impl View for PackageRecord {
    type V = PackageRecordView;

    open spec fn view(&self) -> PackageRecordView {
        PackageRecordView {
            attribute: self.attribute@,
            pname: self.pname@,
            version: self.version@,
            description: opt(self.description),
            broken: self.broken,
            insecure: self.insecure,
            unfree: self.unfree,
        }
    }
}

/// The views of a run of records.
pub open spec fn record_views(s: Seq<PackageRecord>) -> Seq<PackageRecordView> {
    s.map_values(|r: PackageRecord| r@)
}

/// The document of one record.
#[derive(Debug)]
pub struct IndexDocument {
    /// The attribute as it stands: stored, and indexed by its n-grams.
    pub attribute: String,
    /// Stored only.
    pub version: String,
    /// Stored only.
    pub pname: String,
    /// Stored only; left out of the document when the record has none.
    pub description: Option<String>,
    /// Stored as a number, one or zero.
    pub broken: u64,
    pub insecure: u64,
    pub unfree: u64,
    /// The lower-cased attribute, indexed as one un-tokenized term.
    pub attribute_exact: String,
    /// The attribute with its separators turned to spaces, indexed by words.
    pub attribute_text: String,
    /// The package name treated the same way.
    pub pname_text: String,
    /// The description as it stands, indexed by words.
    pub description_text: Option<String>,
}

/// What an `IndexDocument` holds, as plain values.
pub struct IndexDocumentView {
    pub attribute: Seq<char>,
    pub version: Seq<char>,
    pub pname: Seq<char>,
    pub description: Option<Seq<char>>,
    pub broken: u64,
    pub insecure: u64,
    pub unfree: u64,
    pub attribute_exact: Seq<char>,
    pub attribute_text: Seq<char>,
    pub pname_text: Seq<char>,
    pub description_text: Option<Seq<char>>,
}

impl View for IndexDocument {
    type V = IndexDocumentView;

    open spec fn view(&self) -> IndexDocumentView {
        IndexDocumentView {
            attribute: self.attribute@,
            version: self.version@,
            pname: self.pname@,
            description: opt(self.description),
            broken: self.broken,
            insecure: self.insecure,
            unfree: self.unfree,
            attribute_exact: self.attribute_exact@,
            attribute_text: self.attribute_text@,
            pname_text: self.pname_text@,
            description_text: opt(self.description_text),
        }
    }
}

/// The views of a run of documents.
pub open spec fn document_views(s: Seq<IndexDocument>) -> Seq<IndexDocumentView> {
    s.map_values(|d: IndexDocument| d@)
}

/// Why a set of rows cannot be indexed.
#[derive(Clone, Copy, Debug, PartialEq, Eq, Structural)]
pub enum BuildError {
    /// The row at this position has no attribute.
    MalformedRecord { row: usize },
}

/// The characters that part the words of an attribute or a package name.
pub open spec fn is_separator(c: char) -> bool {
    c == '.' || c == '-' || c == '_'
}

/// The text with every separator turned into a space.
pub open spec fn spaced(s: Seq<char>) -> Seq<char> {
    s.map_values(
        |c: char|
            if is_separator(c) {
                ' '
            } else {
                c
            },
    )
}

/// A flag column is set when it holds the number one.
pub open spec fn flag(column: Option<u64>) -> bool {
    column == Some(1u64)
}

/// An absent text column reads as the empty text.
pub open spec fn text_or_empty(column: Option<String>) -> Seq<char> {
    match column {
        Some(s) => s@,
        None => Seq::empty(),
    }
}

/// The record of a row that has an attribute.
pub open spec fn record_of(row: RecordRow) -> PackageRecordView
    recommends
        row.attribute is Some,
{
    PackageRecordView {
        attribute: row.attribute->0@,
        pname: text_or_empty(row.pname),
        version: text_or_empty(row.version),
        description: opt(row.description),
        broken: flag(row.broken),
        insecure: flag(row.insecure),
        unfree: flag(row.unfree),
    }
}

/// The document of a record, given its lower-cased attribute.
pub open spec fn document_with(r: PackageRecordView, lowered: Seq<char>) -> IndexDocumentView {
    IndexDocumentView {
        attribute: r.attribute,
        version: r.version,
        pname: r.pname,
        description: r.description,
        broken: if r.broken {
            1
        } else {
            0
        },
        insecure: if r.insecure {
            1
        } else {
            0
        },
        unfree: if r.unfree {
            1
        } else {
            0
        },
        attribute_exact: lowered,
        attribute_text: spaced(r.attribute),
        pname_text: spaced(r.pname),
        description_text: r.description,
    }
}

/// The document of a record.
pub open spec fn document_of(r: PackageRecordView) -> IndexDocumentView {
    document_with(r, lowercase_of(r.attribute))
}

/// The documents of a record set: one per record, in the records' order.
pub open spec fn documents_of(records: Seq<PackageRecordView>) -> Seq<IndexDocumentView> {
    records.map_values(|r: PackageRecordView| document_of(r))
}

/// Position of the first row without an attribute, or the number of rows.
pub open spec fn first_malformed(rows: Seq<RecordRow>) -> int {
    first_at(rows.len() as int, |i: int| rows[i].attribute is None, 0)
}

/// The text with every separator turned into a space.
pub fn normalize(s: &str) -> (out: String)
    ensures
        out@ == spaced(s@),
{
    let chars = to_chars(s);
    let mut out: Vec<char> = Vec::new();
    let mut i: usize = 0;
    while i < chars.len()
        invariant
            i <= chars.len(),
            chars@ == s@,
            out@ == spaced(s@).take(i as int),
        decreases chars.len() - i,
    {
        let c = chars[i];
        let d = if c == '.' || c == '-' || c == '_' {
            ' '
        } else {
            c
        };
        out.push(d);
        proof {
            assert(spaced(s@).take(i + 1) =~= spaced(s@).take(i as int).push(spaced(s@)[i as int]));
        }
        i += 1;
    }
    proof {
        assert(spaced(s@).take(chars@.len() as int) =~= spaced(s@));
    }
    from_chars(&out)
}

/// Reads one row as a record: absent texts are empty, absent flags clear.
/// A row without an attribute is no record.
pub fn record(row: RecordRow) -> (r: Option<PackageRecord>)
    ensures
        r is Some <==> row.attribute is Some,
        r matches Some(p) ==> p@ == record_of(row),
{
    let RecordRow { attribute, pname, version, description, broken, insecure, unfree } = row;
    let attribute = match attribute {
        Some(a) => a,
        None => {
            return None;
        },
    };
    let pname = match pname {
        Some(p) => p,
        None => String::new(),
    };
    let version = match version {
        Some(v) => v,
        None => String::new(),
    };
    Some(
        PackageRecord {
            attribute,
            pname,
            version,
            description,
            broken: is_set(broken),
            insecure: is_set(insecure),
            unfree: is_set(unfree),
        },
    )
}

fn is_set(column: Option<u64>) -> (b: bool)
    ensures
        b == flag(column),
{
    match column {
        Some(n) => n == 1,
        None => false,
    }
}

/// Reads a row set as records. One row without an attribute fails the whole
/// set, and the error names the first such row.
pub fn records(rows: Vec<RecordRow>) -> (r: Result<Vec<PackageRecord>, BuildError>)
    ensures
        match r {
            Ok(out) => {
                &&& first_malformed(rows@) == rows@.len()
                &&& out@.len() == rows@.len()
                &&& forall|i: int| 0 <= i < rows@.len() ==> out@[i]@ == record_of(rows@[i])
            },
            Err(BuildError::MalformedRecord { row }) => {
                &&& row < rows@.len()
                &&& first_malformed(rows@) == row
            },
        },
{
    let ghost all = rows@;
    let mut out: Vec<PackageRecord> = Vec::new();
    for row in it: rows
        invariant
            it.seq() == all,
            out@.len() == it.index(),
            forall|k: int|
                0 <= k < it.index() ==> all[k].attribute is Some && out@[k]@ == record_of(all[k]),
    {
        match record(row) {
            Some(p) => {
                out.push(p);
            },
            None => {
                proof {
                    lemma_first_at(
                        all.len() as int,
                        |i: int| all[i].attribute is None,
                        0,
                        out@.len() as int,
                    );
                }
                return Err(BuildError::MalformedRecord { row: out.len() });
            },
        }
    }
    proof {
        lemma_first_at(all.len() as int, |i: int| all[i].attribute is None, 0, all.len() as int);
    }
    Ok(out)
}

/// The document of a record whose lower-cased attribute is `lowered`.
pub fn document(record: &PackageRecord, lowered: String) -> (d: IndexDocument)
    ensures
        d@ == document_with(record@, lowered@),
{
    IndexDocument {
        attribute: record.attribute.clone(),
        version: record.version.clone(),
        pname: record.pname.clone(),
        description: copy_opt(&record.description),
        broken: if record.broken {
            1
        } else {
            0
        },
        insecure: if record.insecure {
            1
        } else {
            0
        },
        unfree: if record.unfree {
            1
        } else {
            0
        },
        attribute_exact: lowered,
        attribute_text: normalize(record.attribute.as_str()),
        pname_text: normalize(record.pname.as_str()),
        description_text: copy_opt(&record.description),
    }
}

/// The n-grams that the attribute of a document is indexed under: those of
/// the attribute as it stands, upper and lower case kept apart.
pub fn attribute_grams(doc: &IndexDocument) -> (out: Vec<String>)
    ensures
        crate::text::strs(out@) == crate::metadata::search::grams(doc.attribute@),
{
    crate::text::to_strings(&crate::metadata::search::ngrams(&to_chars(doc.attribute.as_str())))
}

/// The document of a record.
pub fn index_document(record: &PackageRecord) -> (d: IndexDocument)
    ensures
        d@ == document_of(record@),
{
    let lowered = lowercase(record.attribute.as_str());
    document(record, lowered)
}

/// The documents of a record set: as many as there are records, each that
/// of the record at its position.
pub fn index_documents(records: &Vec<PackageRecord>) -> (docs: Vec<IndexDocument>)
    ensures
        document_views(docs@) == documents_of(record_views(records@)),
{
    let mut docs: Vec<IndexDocument> = Vec::new();
    let ghost want = documents_of(record_views(records@));
    let mut i: usize = 0;
    while i < records.len()
        invariant
            i <= records.len(),
            want == documents_of(record_views(records@)),
            document_views(docs@) == want.take(i as int),
        decreases records.len() - i,
    {
        let ghost before = document_views(docs@);
        let d = index_document(&records[i]);
        docs.push(d);
        proof {
            assert(document_views(docs@) =~= before.push(d@));
            assert(want.take(i + 1) =~= want.take(i as int).push(want[i as int]));
        }
        i += 1;
    }
    proof {
        assert(want.take(records@.len() as int) =~= want);
    }
    docs
}

} // verus!
