use libsnow::metadata::index::{
    attribute_grams, document, index_document, index_documents, normalize, record, records,
    BuildError, PackageRecord, RecordRow,
};
use libsnow::metadata::search::ngrams;

fn row(attribute: Option<&str>) -> RecordRow {
    RecordRow {
        attribute: attribute.map(|a| a.to_string()),
        pname: None,
        version: None,
        description: None,
        broken: None,
        insecure: None,
        unfree: None,
    }
}

fn numpy() -> PackageRecord {
    PackageRecord {
        attribute: "python3Packages.NumPy_core-x".to_string(),
        pname: "numpy-core".to_string(),
        version: "1.26.4".to_string(),
        description: Some("Scientific tools".to_string()),
        broken: false,
        insecure: true,
        unfree: false,
    }
}

#[test]
fn row_with_every_column() {
    let r = record(RecordRow {
        attribute: Some("hello".to_string()),
        pname: Some("hello".to_string()),
        version: Some("2.12".to_string()),
        description: Some("greets".to_string()),
        broken: Some(1),
        insecure: Some(0),
        unfree: Some(2),
    })
    .unwrap();
    assert_eq!(r.attribute, "hello");
    assert_eq!(r.pname, "hello");
    assert_eq!(r.version, "2.12");
    assert_eq!(r.description.as_deref(), Some("greets"));
    assert!(r.broken);
    assert!(!r.insecure);
    assert!(!r.unfree);
}

#[test]
fn absent_columns_default() {
    let r = record(row(Some("hello"))).unwrap();
    assert_eq!(r.pname, "");
    assert_eq!(r.version, "");
    assert_eq!(r.description, None);
    assert!(!r.broken && !r.insecure && !r.unfree);
}

#[test]
fn row_without_attribute_is_no_record() {
    assert!(record(row(None)).is_none());
}

#[test]
fn one_malformed_row_fails_the_whole_set() {
    let out = records(vec![row(Some("a")), row(Some("b")), row(Some("c"))]).unwrap();
    let names: Vec<&str> = out.iter().map(|r| r.attribute.as_str()).collect();
    assert_eq!(names, vec!["a", "b", "c"]);
    assert_eq!(
        records(vec![row(Some("a")), row(None), row(Some("c")), row(None)]).unwrap_err(),
        BuildError::MalformedRecord { row: 1 }
    );
    assert_eq!(records(vec![row(None)]).unwrap_err(), BuildError::MalformedRecord { row: 0 });
    assert!(records(vec![]).unwrap().is_empty());
}

#[test]
fn separators_become_spaces() {
    assert_eq!(normalize("python3Packages.numpy"), "python3Packages numpy");
    assert_eq!(normalize("a.b-c_d e"), "a b c d e");
    assert_eq!(normalize("plain"), "plain");
    assert_eq!(normalize(""), "");
    assert_eq!(normalize("a/b:c"), "a/b:c");
}

#[test]
fn document_of_a_record() {
    let d = index_document(&numpy());
    assert_eq!(d.attribute, "python3Packages.NumPy_core-x");
    assert_eq!(d.version, "1.26.4");
    assert_eq!(d.pname, "numpy-core");
    assert_eq!(d.description.as_deref(), Some("Scientific tools"));
    assert_eq!((d.broken, d.insecure, d.unfree), (0, 1, 0));
    assert_eq!(d.attribute_exact, "python3packages.numpy_core-x");
    assert_eq!(d.attribute_text, "python3Packages NumPy core x");
    assert_eq!(d.pname_text, "numpy core");
    assert_eq!(d.description_text.as_deref(), Some("Scientific tools"));
}

#[test]
fn document_takes_the_lowered_attribute_it_is_given() {
    let d = document(&numpy(), "whatever".to_string());
    assert_eq!(d.attribute_exact, "whatever");
    assert_eq!(d.attribute, "python3Packages.NumPy_core-x");
}

#[test]
fn absent_description_is_left_out() {
    let mut r = numpy();
    r.description = None;
    let d = index_document(&r);
    assert_eq!(d.description, None);
    assert_eq!(d.description_text, None);
}

#[test]
fn one_document_per_record_and_the_same_every_time() {
    let set = vec![numpy(), numpy(), record(row(Some("b"))).unwrap()];
    let first = index_documents(&set);
    let second = index_documents(&set);
    assert_eq!(first.len(), 3);
    let key = |docs: &Vec<_>| -> Vec<String> {
        docs.iter().map(|d| format!("{:?}", d)).collect()
    };
    assert_eq!(key(&first), key(&second));
    assert_eq!(first[2].attribute, "b");
    assert!(index_documents(&vec![]).is_empty());
}

#[test]
fn attribute_grams_keep_case_and_query_grams_are_lower_case() {
    let mut r = numpy();
    r.attribute = "NumPy".to_string();
    let d = index_document(&r);
    assert_eq!(attribute_grams(&d), vec!["Num", "umP", "mPy"]);
    let query: Vec<String> =
        ngrams(&"numpy".chars().collect()).iter().map(|g| g.iter().collect()).collect();
    assert_eq!(query, vec!["num", "ump", "mpy"]);
    r.attribute = "ab".to_string();
    assert!(attribute_grams(&index_document(&r)).is_empty());
    r.attribute = "h\u{00E9}llo".to_string();
    assert_eq!(attribute_grams(&index_document(&r)), vec!["h\u{00E9}l", "\u{00E9}ll", "llo"]);
}
