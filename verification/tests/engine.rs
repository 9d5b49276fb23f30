//! The plan, the documents and the ranking pass, run against the index
//! engine itself.

use libsnow::metadata::index::{attribute_grams, index_document, index_documents, IndexDocument, PackageRecord};
use libsnow::metadata::search::{
    compile, is_penalised, materialize, search, Clause, MatchField, QueryPlan, SearchQuery,
    SearchResult, StoredDocument, StoredField, StoredValue, Tuning,
};
use tantivy::collector::TopDocs;
use tantivy::query::{BooleanQuery, BoostQuery, Occur, Query, QueryParser, TermQuery};
use tantivy::schema::{
    Field, IndexRecordOption, Schema, TextFieldIndexing, TextOptions, Value, STORED, STRING, TEXT,
};
use tantivy::tokenizer::{NgramTokenizer, TokenStream, Tokenizer};
use tantivy::{Index, TantivyDocument, Term};

struct Fields {
    attribute: Field,
    version: Field,
    pname: Field,
    description: Field,
    broken: Field,
    insecure: Field,
    unfree: Field,
    attribute_exact: Field,
    attribute_text: Field,
    pname_text: Field,
    description_text: Field,
}

fn schema() -> (Schema, Fields) {
    let ngram = TextOptions::default()
        .set_indexing_options(
            TextFieldIndexing::default()
                .set_tokenizer("ngram3")
                .set_index_option(IndexRecordOption::WithFreqsAndPositions),
        )
        .set_stored();
    let mut builder = Schema::builder();
    let fields = Fields {
        attribute: builder.add_text_field("attribute", ngram),
        version: builder.add_text_field("version", STORED),
        pname: builder.add_text_field("pname", STORED),
        description: builder.add_text_field("description", STORED),
        broken: builder.add_u64_field("broken", STORED),
        insecure: builder.add_u64_field("insecure", STORED),
        unfree: builder.add_u64_field("unfree", STORED),
        attribute_exact: builder.add_text_field("attribute_exact", STRING),
        attribute_text: builder.add_text_field("attribute_text", TEXT),
        pname_text: builder.add_text_field("pname_text", TEXT),
        description_text: builder.add_text_field("description_text", TEXT),
    };
    (builder.build(), fields)
}

fn document(fields: &Fields, doc: &IndexDocument) -> TantivyDocument {
    let mut out = TantivyDocument::default();
    out.add_text(fields.attribute, &doc.attribute);
    out.add_text(fields.version, &doc.version);
    out.add_text(fields.pname, &doc.pname);
    if let Some(d) = &doc.description {
        out.add_text(fields.description, d);
    }
    out.add_u64(fields.broken, doc.broken);
    out.add_u64(fields.insecure, doc.insecure);
    out.add_u64(fields.unfree, doc.unfree);
    out.add_text(fields.attribute_exact, &doc.attribute_exact);
    out.add_text(fields.attribute_text, &doc.attribute_text);
    out.add_text(fields.pname_text, &doc.pname_text);
    if let Some(d) = &doc.description_text {
        out.add_text(fields.description_text, d);
    }
    out
}

fn build(records: &Vec<PackageRecord>) -> (Index, Fields) {
    let (schema, fields) = schema();
    let index = Index::create_in_ram(schema);
    index.tokenizers().register("ngram3", NgramTokenizer::new(3, 3, false).unwrap());
    let mut writer = index.writer_with_num_threads(1, 20_000_000).unwrap();
    for doc in index_documents(records) {
        writer.add_document(document(&fields, &doc)).unwrap();
    }
    writer.commit().unwrap();
    (index, fields)
}

fn query(index: &Index, fields: &Fields, plan: &QueryPlan) -> BooleanQuery {
    let mut parts: Vec<(Occur, Box<dyn Query>)> = Vec::new();
    for clause in &plan.clauses {
        let part: Box<dyn Query> = match clause {
            Clause::Exact { term, boost } => Box::new(BoostQuery::new(
                Box::new(TermQuery::new(
                    Term::from_field_text(fields.attribute_exact, term),
                    IndexRecordOption::Basic,
                )),
                *boost as f32,
            )),
            Clause::Fuzzy { field, text, distance, transpositions, boost } => {
                let field = match field {
                    MatchField::Attribute => fields.attribute_text,
                    MatchField::Pname => fields.pname_text,
                    MatchField::Description => fields.description_text,
                };
                let mut parser = QueryParser::for_index(index, vec![field]);
                parser.set_field_fuzzy(field, false, *distance, *transpositions);
                parser.set_field_boost(field, *boost as f32);
                parser.parse_query_lenient(text).0
            }
            Clause::Ngram { term } => Box::new(TermQuery::new(
                Term::from_field_text(fields.attribute, term),
                IndexRecordOption::Basic,
            )),
        };
        parts.push((Occur::Should, part));
    }
    BooleanQuery::new(parts)
}

fn stored(doc: &TantivyDocument, field: Field) -> StoredField {
    let values: Vec<StoredValue> = doc
        .get_all(field)
        .map(|v| {
            if let Some(s) = v.as_str() {
                StoredValue::Text(s.to_string())
            } else if let Some(n) = v.as_u64() {
                StoredValue::Number(n)
            } else {
                StoredValue::Other
            }
        })
        .collect();
    if values.is_empty() {
        StoredField::Missing
    } else {
        StoredField::Array(values)
    }
}

fn key(score: f32) -> u32 {
    if score > 0.0 {
        score.to_bits()
    } else {
        0
    }
}

fn find(index: &Index, fields: &Fields, text: &str, limit: usize, threshold: f32) -> Vec<SearchResult> {
    let sq = SearchQuery { query: text, limit, score_threshold: key(threshold) };
    let plan = match compile(text, limit, &Tuning::default()) {
        Some(plan) if plan.fetch > 0 => plan,
        _ => return search(&sq, Vec::new()),
    };
    let searcher = index.reader().unwrap().searcher();
    let hits = searcher
        .search(&query(index, fields, &plan), &TopDocs::with_limit(plan.fetch).order_by_score())
        .unwrap();
    let mut candidates = Vec::new();
    for (raw, address) in hits {
        let doc: TantivyDocument = searcher.doc(address).unwrap();
        let attribute = doc.get_first(fields.attribute).and_then(|v| v.as_str()).unwrap_or("");
        let adjusted = if is_penalised(attribute, plan.query_len) {
            let ratio = attribute.chars().count() as f32 / plan.query_len as f32;
            raw / (1.0 + ratio.ln())
        } else {
            raw
        };
        let fields = StoredDocument {
            attribute: stored(&doc, fields.attribute),
            version: stored(&doc, fields.version),
            pname: stored(&doc, fields.pname),
            description: stored(&doc, fields.description),
            broken: stored(&doc, fields.broken),
            insecure: stored(&doc, fields.insecure),
            unfree: stored(&doc, fields.unfree),
        };
        candidates.push(materialize(fields, key(adjusted)).unwrap());
    }
    search(&sq, candidates)
}

fn record(attribute: &str, pname: &str, version: &str, description: Option<&str>) -> PackageRecord {
    PackageRecord {
        attribute: attribute.to_string(),
        pname: pname.to_string(),
        version: version.to_string(),
        description: description.map(|d| d.to_string()),
        broken: false,
        insecure: false,
        unfree: false,
    }
}

fn catalog() -> Vec<PackageRecord> {
    let mut broken = record("hello-unfree", "hello-unfree", "2.0", None);
    broken.unfree = true;
    broken.broken = true;
    vec![
        record("python3Packages.numpy", "numpy", "1.26.4", Some("Scientific tools for Python")),
        record("numpy", "numpy", "1.26.4", Some("Scientific tools for Python")),
        record("python3Packages.numpydoc", "numpydoc", "1.6.0", Some("Sphinx extension")),
        record("hello", "hello", "2.12.1", Some("A program that produces a familiar greeting")),
        record("firefox", "firefox", "125.0", Some("A web browser built from Firefox source")),
        record("Xorg", "xorg", "", None),
        broken,
    ]
}

#[test]
fn exact_attribute_is_the_top_result() {
    let records = catalog();
    let (index, fields) = build(&records);
    for r in &records {
        let q = r.attribute.to_lowercase();
        let out = find(&index, &fields, &q, 5, 0.0);
        assert!(!out.is_empty(), "no result for {}", q);
        assert_eq!(out[0].attribute, r.attribute, "query {}", q);
        assert!(f32::from_bits(out[0].score) > 100.0);
    }
}

#[test]
fn exact_match_is_found_whatever_the_case_of_the_query() {
    let (index, fields) = build(&catalog());
    let out = find(&index, &fields, "  FireFox ", 3, 0.0);
    assert_eq!(out[0].attribute, "firefox");
    let out = find(&index, &fields, "xorg", 3, 0.0);
    assert_eq!(out[0].attribute, "Xorg");
}

#[test]
fn one_edit_away_is_still_found() {
    let (index, fields) = build(&catalog());
    let out = find(&index, &fields, "numpyy", 5, 0.0);
    assert!(out.iter().any(|r| r.attribute == "numpy"));
    let out = find(&index, &fields, "helo", 5, 0.0);
    assert!(out.iter().any(|r| r.attribute == "hello"));
    let out = find(&index, &fields, "firefxo", 5, 0.0);
    assert!(out.iter().any(|r| r.attribute == "firefox"));
}

#[test]
fn results_are_descending_and_within_the_limit() {
    let (index, fields) = build(&catalog());
    let out = find(&index, &fields, "numpy", 2, 0.0);
    assert!(out.len() <= 2);
    assert!(!out.is_empty());
    for pair in out.windows(2) {
        assert!(pair[0].score >= pair[1].score);
    }
}

#[test]
fn shorter_attribute_ranks_above_a_longer_one_with_the_same_match() {
    let records = vec![
        record("aaa.zlib", "zlib", "1", None),
        record("aaa.bbb.ccc.zlib", "zlib", "1", None),
    ];
    let (index, fields) = build(&records);
    let out = find(&index, &fields, "zlib", 5, 0.0);
    let short = out.iter().position(|r| r.attribute == "aaa.zlib").unwrap();
    let long = out.iter().position(|r| r.attribute == "aaa.bbb.ccc.zlib").unwrap();
    assert!(short < long);
}

#[test]
fn high_threshold_gives_nothing() {
    let (index, fields) = build(&catalog());
    assert!(!find(&index, &fields, "numpy", 5, 0.0).is_empty());
    assert!(find(&index, &fields, "numpy", 5, 1.0e9).is_empty());
}

#[test]
fn blank_query_gives_nothing_from_the_engine() {
    let (index, fields) = build(&catalog());
    assert!(find(&index, &fields, "", 5, 0.0).is_empty());
    assert!(find(&index, &fields, " \t ", 5, 0.0).is_empty());
}

#[test]
fn odd_query_text_does_not_fail() {
    let (index, fields) = build(&catalog());
    let _ = find(&index, &fields, "numpy AND (", 5, 0.0);
    let _ = find(&index, &fields, "\"unterminated", 5, 0.0);
    let _ = find(&index, &fields, "title:^^", 5, 0.0);
}

#[test]
fn flags_and_absent_fields_come_back() {
    let (index, fields) = build(&catalog());
    let out = find(&index, &fields, "hello-unfree", 3, 0.0);
    assert_eq!(out[0].attribute, "hello-unfree");
    assert!(out[0].unfree);
    assert!(out[0].broken);
    assert!(!out[0].insecure);
    assert_eq!(out[0].description, None);
    assert_eq!(out[0].version.as_deref(), Some("2.0"));
    let out = find(&index, &fields, "xorg", 3, 0.0);
    assert_eq!(out[0].version, None);
    assert_eq!(out[0].pname.as_deref(), Some("xorg"));
}

#[test]
fn rebuilding_gives_the_same_answers() {
    let records = catalog();
    let (first, fields_a) = build(&records);
    let (second, fields_b) = build(&records);
    for q in ["numpy", "hello", "firefxo", "python"] {
        let a: Vec<(String, u32)> =
            find(&first, &fields_a, q, 5, 0.0).into_iter().map(|r| (r.attribute, r.score)).collect();
        let b: Vec<(String, u32)> =
            find(&second, &fields_b, q, 5, 0.0).into_iter().map(|r| (r.attribute, r.score)).collect();
        assert_eq!(a, b);
    }
}

#[test]
fn tokenizer_of_the_engine_cuts_the_same_grams() {
    let mut tokenizer = NgramTokenizer::new(3, 3, false).unwrap();
    for attribute in ["numpy", "NumPy", "ab", "abc", "", "python3Packages.numpy", "h\u{00E9}llo w\u{4E16}rld", "a-b_c.d"] {
        let mut engine = Vec::new();
        let mut stream = tokenizer.token_stream(attribute);
        while stream.advance() {
            engine.push(stream.token().text.clone());
        }
        let doc = index_document(&record(attribute, "p", "1", None));
        assert_eq!(attribute_grams(&doc), engine, "{:?}", attribute);
    }
}
