use omakure::domain::{Field, Schema};
use omakure::search::{build_record, build_search_blob, escape_like, split_query, SearchField, SearchRecord, SearchStatus};
use omakure::store::SearchIndex;

fn record(path: &str, name: &str, desc: Option<&str>, tags: Vec<&str>) -> SearchRecord {
    let tags_owned: Vec<String> = tags.iter().map(|t| t.to_string()).collect();
    let fields = vec![SearchField {
        name: "target".to_string(),
        prompt: Some("Target".to_string()),
        kind: "string".to_string(),
        required: false,
    }];
    let blob = build_search_blob(path, name, &desc.map(|d| d.to_string()), &tags_owned, &fields);
    SearchRecord {
        script_path: path.to_string(),
        display_name: name.to_string(),
        description: desc.map(|d| d.to_string()),
        tags_raw: if tags_owned.is_empty() { None } else { Some(tags_owned.join(",")) },
        search_blob: blob,
        schema_error: None,
        indexed_at: 1,
        fields,
    }
}

fn sample_index() -> SearchIndex {
    let mut idx = SearchIndex::new_in_memory().unwrap();
    let records = vec![
        record("tools/alpha.sh", "Alpha Cleanup", Some("removes Temp files"), vec!["cleanup"]),
        record("beta.py", "beta", None, vec![]),
        record("gamma.ps1", "Gamma", Some("alpha particle counter"), vec!["physics", "count"]),
    ];
    assert_eq!(idx.rebuild_from(&records), Ok(3));
    idx
}

#[test]
fn empty_query_returns_every_indexed_script() {
    let idx = sample_index();
    let all = idx.query("").unwrap();
    assert_eq!(all.len(), 3);
    // ordered by display name, case-insensitively
    let names: Vec<&str> = all.iter().map(|r| r.display_name.as_str()).collect();
    assert_eq!(names, vec!["Alpha Cleanup", "beta", "Gamma"]);
}

#[test]
fn tokens_match_conjunctively_as_substrings() {
    let idx = sample_index();
    let hits = idx.query("alpha").unwrap();
    assert_eq!(hits.len(), 2);
    let hits = idx.query("alpha temp").unwrap();
    assert_eq!(hits.len(), 1);
    assert_eq!(hits[0].script_path, "tools/alpha.sh");
    let hits = idx.query("ALPHA CLEANUP").unwrap();
    assert_eq!(hits.len(), 1);
    let none = idx.query("alpha zebra").unwrap();
    assert_eq!(none.len(), 0);
}

#[test]
fn percent_is_not_a_wildcard() {
    let idx = sample_index();
    assert_eq!(idx.query("%").unwrap().len(), 0);
    assert_eq!(idx.query("a%a").unwrap().len(), 0);
}

#[test]
fn rebuild_is_idempotent_and_removal_sticks() {
    let mut idx = SearchIndex::new_in_memory().unwrap();
    let records = vec![
        record("a.sh", "A", None, vec![]),
        record("b.sh", "B", None, vec![]),
    ];
    assert_eq!(idx.rebuild_from(&records), Ok(2));
    let first: Vec<String> = idx.query("").unwrap().iter().map(|r| r.script_path.clone()).collect();
    assert_eq!(idx.rebuild_from(&records), Ok(2));
    let second: Vec<String> = idx.query("").unwrap().iter().map(|r| r.script_path.clone()).collect();
    assert_eq!(first, second);
    let fewer = vec![record("b.sh", "B", None, vec![])];
    assert_eq!(idx.rebuild_from(&fewer), Ok(1));
    let third = idx.query("").unwrap();
    assert_eq!(third.len(), 1);
    assert_eq!(third[0].script_path, "b.sh");
    assert!(idx.query("a.sh").unwrap().is_empty());
}

#[test]
fn details_return_ordered_fields_or_nothing() {
    let idx = sample_index();
    let d = idx.load_details("tools/alpha.sh").unwrap().unwrap();
    assert_eq!(d.display_name, "Alpha Cleanup");
    assert_eq!(d.tags, vec!["cleanup".to_string()]);
    assert_eq!(d.fields.len(), 1);
    assert_eq!(d.fields[0].name, "target");
    assert!(idx.load_details("missing.sh").unwrap().is_none());
}

#[test]
fn blob_is_lowercase_and_holds_all_parts() {
    let r = record("Tools/Alpha.sh", "Alpha Cleanup", Some("Removes Temp"), vec!["CleanUp"]);
    assert_eq!(
        r.search_blob,
        "tools/alpha.sh alpha cleanup removes temp cleanup target target string"
    );
}

#[test]
fn query_tokens_are_lowercased() {
    assert_eq!(split_query("  Foo  BAR\tbaz\n"), vec!["foo", "bar", "baz"]);
    assert_eq!(split_query(""), Vec::<String>::new());
}

#[test]
fn escape_like_quotes_pattern_characters() {
    assert_eq!(escape_like(r"a%b_c\d"), r"a\%b\_c\\d");
}

#[test]
fn status_transitions_compare_by_value() {
    let mut idx = SearchIndex::new_in_memory().unwrap();
    assert!(idx.status().same_as(&SearchStatus::Idle));
    idx.set_status(SearchStatus::Ready { script_count: 2 });
    assert!(idx.status().same_as(&SearchStatus::Ready { script_count: 2 }));
    assert!(!idx.status().same_as(&SearchStatus::Ready { script_count: 3 }));
    idx.set_status(SearchStatus::Error("boom".to_string()));
    assert!(idx.status().same_as(&SearchStatus::Error("boom".to_string())));
}

#[test]
fn blob_folds_unicode_case() {
    let idx = {
        let mut idx = SearchIndex::new_in_memory().unwrap();
        let records = vec![record("sweets/eclair.sh", "Éclair Überprüfung", None, vec![])];
        assert_eq!(idx.rebuild_from(&records), Ok(1));
        idx
    };
    assert_eq!(idx.query("éclair").unwrap().len(), 1);
    assert_eq!(idx.query("überprüfung").unwrap().len(), 1);
    assert_eq!(idx.query("Éclair").unwrap().len(), 1);
    assert_eq!(idx.query("umlaut").unwrap().len(), 0);
}

#[test]
fn no_path_is_returned_twice() {
    let idx = sample_index();
    let all = idx.query("").unwrap();
    for i in 0..all.len() {
        for j in (i + 1)..all.len() {
            assert_ne!(all[i].script_path, all[j].script_path);
        }
    }
}

#[test]
fn build_record_maps_schema_or_falls_back() {
    let schema = Schema {
        name: "Tidy".to_string(),
        description: Some("Cleans".to_string()),
        tags: Some(vec!["ops".to_string(), "io".to_string()]),
        fields: vec![Field {
            name: "force".to_string(),
            prompt: Some("Force?".to_string()),
            kind: "bool".to_string(),
            order: 1,
            required: Some(true),
            default: None,
            choices: None,
            arg: None,
        }],
        outputs: None,
        queue: None,
    };
    let r = build_record("tools/tidy.sh".to_string(), "tidy.sh".to_string(), Ok(schema), 7);
    assert_eq!(r.script_path, "tools/tidy.sh");
    assert_eq!(r.display_name, "Tidy");
    assert_eq!(r.description, Some("Cleans".to_string()));
    assert_eq!(r.tags_raw, Some("ops,io".to_string()));
    assert_eq!(r.indexed_at, 7);
    assert_eq!(r.fields.len(), 1);
    assert!(r.fields[0].required);
    assert_eq!(r.search_blob, "tools/tidy.sh tidy cleans ops io force force? bool");
    assert!(r.schema_error.is_none());

    let broken = build_record(
        "tools/x.sh".to_string(),
        "x.sh".to_string(),
        Err("Schema block not found".to_string()),
        8,
    );
    assert_eq!(broken.display_name, "x.sh");
    assert_eq!(broken.schema_error, Some("Schema block not found".to_string()));
    assert!(broken.fields.is_empty());
    assert_eq!(broken.search_blob, "tools/x.sh x.sh");
}
