use libsnow::metadata::search::{
    candidates, clauses, compile, deserialize_bool, deserialize_string, deserialize_string_option,
    fetch_limit, is_penalised, materialize, rank, search, Clause, DecodeError, MatchField,
    SearchQuery, SearchResult, StoredDocument, StoredField, StoredValue, Tuning,
    DEFAULT_SCORE_THRESHOLD, GRAM,
};

fn text(s: &str) -> StoredField {
    StoredField::Array(vec![StoredValue::Text(s.to_string())])
}

fn number(n: u64) -> StoredField {
    StoredField::Array(vec![StoredValue::Number(n)])
}

fn stored(attribute: StoredField) -> StoredDocument {
    StoredDocument {
        attribute,
        version: text("1.0"),
        pname: text("hello"),
        description: StoredField::Missing,
        broken: number(0),
        insecure: number(1),
        unfree: StoredField::Missing,
    }
}

fn hit(attribute: &str, score: u32) -> SearchResult {
    SearchResult {
        attribute: attribute.to_string(),
        version: None,
        pname: None,
        description: None,
        broken: false,
        insecure: false,
        unfree: false,
        score,
    }
}

fn names(results: &[SearchResult]) -> Vec<String> {
    results.iter().map(|r| r.attribute.clone()).collect()
}

#[test]
fn rank_orders_by_descending_score() {
    let out = rank(vec![hit("a", 10), hit("b", 30), hit("c", 20)], 10, 0);
    assert_eq!(names(&out), vec!["b", "c", "a"]);
}

#[test]
fn rank_keeps_retrieval_order_of_ties() {
    let out = rank(vec![hit("a", 5), hit("b", 7), hit("c", 5), hit("d", 7)], 10, 0);
    assert_eq!(names(&out), vec!["b", "d", "a", "c"]);
}

#[test]
fn rank_drops_candidates_under_the_threshold() {
    let out = rank(vec![hit("a", 5), hit("b", 7), hit("c", 6)], 10, 6);
    assert_eq!(names(&out), vec!["b", "c"]);
}

#[test]
fn rank_cuts_to_the_limit_after_sorting() {
    let out = rank(vec![hit("a", 1), hit("b", 2), hit("c", 3), hit("d", 4)], 2, 0);
    assert_eq!(names(&out), vec!["d", "c"]);
}

#[test]
fn rank_with_limit_zero_is_empty() {
    assert!(rank(vec![hit("a", 1)], 0, 0).is_empty());
}

#[test]
fn threshold_above_every_score_gives_nothing() {
    let out = rank(vec![hit("a", 5), hit("b", 7)], 10, 8);
    assert!(out.is_empty());
}

#[test]
fn blank_query_gives_nothing() {
    let sq = SearchQuery { query: "  \t\n ", limit: 10, score_threshold: 0 };
    assert!(search(&sq, vec![hit("a", 5)]).is_empty());
    let sq = SearchQuery { query: "", limit: 10, score_threshold: 0 };
    assert!(search(&sq, vec![hit("a", 5)]).is_empty());
    assert!(compile("   ", 10, &Tuning::default()).is_none());
    assert!(compile("", 10, &Tuning::default()).is_none());
}

#[test]
fn search_ranks_for_a_real_query() {
    let sq = SearchQuery { query: "numpy", limit: 1, score_threshold: 3 };
    let out = search(&sq, vec![hit("a", 2), hit("b", 4), hit("c", 9)]);
    assert_eq!(names(&out), vec!["c"]);
}

#[test]
fn default_query_has_limit_ten_and_threshold_ten() {
    let sq = SearchQuery::default();
    assert_eq!(sq.query, "");
    assert_eq!(sq.limit, 10);
    assert_eq!(sq.score_threshold, DEFAULT_SCORE_THRESHOLD);
    assert_eq!(f32::from_bits(sq.score_threshold), 10.0);
}

#[test]
fn compile_trims_and_lowercases() {
    let plan = compile("  NumPy ", 5, &Tuning::default()).unwrap();
    assert_eq!(plan.fetch, 20);
    match &plan.clauses[0] {
        Clause::Exact { term, boost } => {
            assert_eq!(term, "numpy");
            assert_eq!(*boost, 1000);
        }
        other => panic!("unexpected clause {:?}", other),
    }
}

#[test]
fn plan_has_exact_fuzzy_and_ngram_clauses() {
    let plan = clauses("numpy", &Tuning::default());
    assert_eq!(plan.len(), 7);
    let mut fuzzy = Vec::new();
    let mut grams = Vec::new();
    for clause in &plan[1..] {
        match clause {
            Clause::Fuzzy { field, text, distance, transpositions, boost } => {
                assert_eq!(text, "numpy");
                assert_eq!(*distance, 1);
                assert!(*transpositions);
                fuzzy.push((*field, *boost));
            }
            Clause::Ngram { term } => grams.push(term.clone()),
            other => panic!("unexpected clause {:?}", other),
        }
    }
    assert_eq!(
        fuzzy,
        vec![
            (MatchField::Attribute, 200),
            (MatchField::Pname, 150),
            (MatchField::Description, 5)
        ]
    );
    assert_eq!(grams, vec!["num", "ump", "mpy"]);
}

#[test]
fn short_query_has_no_ngram_clause() {
    assert_eq!(clauses("ab", &Tuning::default()).len(), 4);
    assert_eq!(clauses("abc", &Tuning::default()).len(), 5);
}

#[test]
fn plan_with_other_weights() {
    let tuning = Tuning {
        exact_boost: 7,
        attribute_boost: 3,
        pname_boost: 2,
        description_boost: 1,
        overfetch: 10,
    };
    let plan = compile("ab", 3, &tuning).unwrap();
    assert_eq!(plan.fetch, 30);
    assert_eq!(plan.query_len, 2);
    let boosts: Vec<u32> = plan
        .clauses
        .iter()
        .map(|c| match c {
            Clause::Exact { boost, .. } => *boost,
            Clause::Fuzzy { boost, .. } => *boost,
            Clause::Ngram { .. } => 0,
        })
        .collect();
    assert_eq!(boosts, vec![7, 3, 2, 1]);
}

#[test]
fn default_tuning() {
    let t = Tuning::default();
    assert_eq!(
        (t.exact_boost, t.attribute_boost, t.pname_boost, t.description_boost, t.overfetch),
        (1000, 200, 150, 5, 4)
    );
    assert_eq!(GRAM, 3);
}

#[test]
fn fetch_is_limit_times_factor_or_the_largest_number() {
    let t = Tuning::default();
    assert_eq!(fetch_limit(0, &t), 0);
    assert_eq!(fetch_limit(1, &t), 4);
    assert_eq!(fetch_limit(25, &t), 100);
    assert_eq!(fetch_limit(usize::MAX / 4, &t), (usize::MAX / 4) * 4);
    assert_eq!(fetch_limit(usize::MAX / 4 + 1, &t), usize::MAX);
    assert_eq!(fetch_limit(usize::MAX, &t), usize::MAX);
    let none = Tuning { overfetch: 0, ..t };
    assert_eq!(fetch_limit(usize::MAX, &none), 0);
    let one = Tuning { overfetch: 1, ..t };
    assert_eq!(fetch_limit(usize::MAX, &one), usize::MAX);
}

#[test]
fn query_length_counts_characters_of_the_lowered_query() {
    assert_eq!(compile(" h\u{00C9}llo ", 1, &Tuning::default()).unwrap().query_len, 5);
    let plan = compile("\u{0130}", 1, &Tuning::default()).unwrap();
    assert_eq!(plan.query_len, "\u{0130}".to_lowercase().chars().count());
}

#[test]
fn penalty_touches_only_longer_attributes() {
    assert!(!is_penalised("numpy", 5));
    assert!(!is_penalised("num", 5));
    assert!(is_penalised("numpyy", 5));
    assert!(!is_penalised("", 0));
    assert!(is_penalised("a", 0));
    assert!(!is_penalised("h\u{00E9}llo", 5));
}

#[test]
fn ngrams_of_text_with_wide_characters() {
    let plan = clauses("h\u{00E9}l\u{4E16}", &Tuning::default());
    let grams: Vec<&str> = plan
        .iter()
        .filter_map(|c| match c {
            Clause::Ngram { term } => Some(term.as_str()),
            _ => None,
        })
        .collect();
    assert_eq!(grams, vec!["h\u{00E9}l", "\u{00E9}l\u{4E16}"]);
}

#[test]
fn required_text_field() {
    assert_eq!(deserialize_string(text("hello")).unwrap(), "hello");
    assert_eq!(deserialize_string(text("")).unwrap(), "");
    assert_eq!(deserialize_string(number(1)), Err(DecodeError::NotText));
    assert_eq!(
        deserialize_string(StoredField::Array(vec![StoredValue::Other])),
        Err(DecodeError::NotText)
    );
    assert_eq!(deserialize_string(StoredField::Array(vec![])), Err(DecodeError::NotSingle));
    assert_eq!(
        deserialize_string(StoredField::Array(vec![
            StoredValue::Text("a".to_string()),
            StoredValue::Text("b".to_string())
        ])),
        Err(DecodeError::NotSingle)
    );
    assert_eq!(deserialize_string(StoredField::NotArray), Err(DecodeError::NotArray));
    assert_eq!(deserialize_string(StoredField::Missing), Err(DecodeError::Missing));
}

#[test]
fn optional_text_field() {
    assert_eq!(deserialize_string_option(text("1.0")).unwrap().as_deref(), Some("1.0"));
    assert_eq!(deserialize_string_option(text("")).unwrap(), None);
    assert_eq!(deserialize_string_option(number(3)).unwrap(), None);
    assert_eq!(deserialize_string_option(StoredField::Missing).unwrap(), None);
    assert_eq!(
        deserialize_string_option(StoredField::Array(vec![])),
        Err(DecodeError::NotSingle)
    );
    assert_eq!(deserialize_string_option(StoredField::NotArray), Err(DecodeError::NotArray));
}

#[test]
fn flag_field() {
    assert_eq!(deserialize_bool(text("1")), Ok(true));
    assert_eq!(deserialize_bool(text("0")), Ok(false));
    assert_eq!(deserialize_bool(text("true")), Ok(false));
    assert_eq!(deserialize_bool(text("11")), Ok(false));
    assert_eq!(deserialize_bool(text("")), Ok(false));
    assert_eq!(deserialize_bool(number(1)), Ok(true));
    assert_eq!(deserialize_bool(number(0)), Ok(false));
    assert_eq!(deserialize_bool(number(2)), Ok(false));
    assert_eq!(deserialize_bool(StoredField::Array(vec![StoredValue::Other])), Ok(false));
    assert_eq!(deserialize_bool(StoredField::Missing), Ok(false));
    assert_eq!(deserialize_bool(StoredField::Array(vec![])), Err(DecodeError::NotSingle));
    assert_eq!(deserialize_bool(StoredField::NotArray), Err(DecodeError::NotArray));
}

#[test]
fn document_read_as_a_result() {
    let r = materialize(stored(text("hello")), 42).unwrap();
    assert_eq!(r.attribute, "hello");
    assert_eq!(r.version.as_deref(), Some("1.0"));
    assert_eq!(r.pname.as_deref(), Some("hello"));
    assert_eq!(r.description, None);
    assert!(!r.broken);
    assert!(r.insecure);
    assert!(!r.unfree);
    assert_eq!(r.score, 42);
}

#[test]
fn first_unreadable_field_decides_the_error() {
    assert_eq!(materialize(stored(StoredField::Missing), 1).unwrap_err(), DecodeError::Missing);
    assert_eq!(materialize(stored(number(5)), 1).unwrap_err(), DecodeError::NotText);
    let mut doc = stored(StoredField::NotArray);
    doc.version = StoredField::Array(vec![]);
    assert_eq!(materialize(doc, 1).unwrap_err(), DecodeError::NotArray);
    let mut doc = stored(text("a"));
    doc.version = StoredField::Array(vec![]);
    doc.broken = StoredField::NotArray;
    assert_eq!(materialize(doc, 1).unwrap_err(), DecodeError::NotSingle);
    let mut doc = stored(text("a"));
    doc.unfree = StoredField::NotArray;
    assert_eq!(materialize(doc, 1).unwrap_err(), DecodeError::NotArray);
}

#[test]
fn equal_scores_differing_in_nothing_else_keep_their_places() {
    let out = rank(vec![hit("long.attribute", 9), hit("short", 9)], 10, 0);
    assert_eq!(names(&out), vec!["long.attribute", "short"]);
    let out = rank(vec![hit("long.attribute", 8), hit("short", 9)], 10, 0);
    assert_eq!(names(&out), vec!["short", "long.attribute"]);
}

#[test]
fn score_keys_order_as_the_scores_do() {
    let scores = [0.0f32, 0.001, 0.5, 1.0, 9.99, 10.0, 10.5, 1000.0, 1.0e20, f32::MAX];
    for a in scores {
        for b in scores {
            assert_eq!(a.to_bits() < b.to_bits(), a < b);
        }
    }
    let out = rank(
        vec![hit("a", 0.5f32.to_bits()), hit("b", 1000.0f32.to_bits()), hit("c", 10.0f32.to_bits())],
        10,
        DEFAULT_SCORE_THRESHOLD,
    );
    assert_eq!(names(&out), vec!["b", "c"]);
}

#[test]
fn one_edit_leaves_a_gram_in_common() {
    let grams = |q: &str| -> Vec<String> {
        clauses(q, &Tuning::default())
            .into_iter()
            .filter_map(|c| match c {
                Clause::Ngram { term } => Some(term),
                _ => None,
            })
            .collect()
    };
    let indexed = grams("firefox");
    for variant in ["firefoxx", "xfirefox", "firfox", "firefx", "fjrefox", "firefoy", "ifrefox", "fireofx", "firxefox"] {
        let asked = grams(variant);
        assert!(asked.iter().any(|g| indexed.contains(g)), "{}", variant);
    }
    let indexed = grams("numpy");
    assert!(grams("numpyy").iter().any(|g| indexed.contains(g)));
    assert!(grams("nnumpy").iter().any(|g| indexed.contains(g)));
    assert!(!grams("abcd").iter().any(|g| grams("abxd").contains(g)));
}

#[test]
fn hits_are_read_in_order_and_fail_as_a_whole() {
    let out = candidates(vec![(stored(text("b")), 2), (stored(text("a")), 9)]).unwrap();
    assert_eq!(names(&out), vec!["b", "a"]);
    assert_eq!(out[1].score, 9);
    assert!(candidates(vec![]).unwrap().is_empty());
    let err = candidates(vec![
        (stored(text("b")), 2),
        (stored(StoredField::NotArray), 1),
        (stored(StoredField::Missing), 1),
    ])
    .unwrap_err();
    assert_eq!(err, DecodeError::NotArray);
}
