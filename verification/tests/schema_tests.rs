use omakure::codec::{comment_prefixes, extract_schema_block, parse_schema, render_schema_block};

const BLOCK_HASH: &str = "#!/usr/bin/env bash\n# OMAKURE_SCHEMA_START\n# {\n#   \"Name\": \"cleanup\",\n#   \"Description\": \"Tidy things\",\n#   \"Tags\": [\"ops\", \"daily\"],\n#   \"Fields\": [\n#     {\"Name\": \"force\", \"Type\": \"bool\", \"Order\": 1, \"Required\": false},\n#     {\"Name\": \"target\", \"Type\": \"string\", \"Order\": 2, \"Prompt\": \"Target\", \"Default\": \"all\", \"Arg\": \"--target\"}\n#   ]\n# }\n# OMAKURE_SCHEMA_END\necho hi\n";

#[test]
fn extract_and_parse_round_trip_hash_prefix() {
    let prefixes = comment_prefixes();
    let text = extract_schema_block(BLOCK_HASH, &prefixes).unwrap();
    let schema = parse_schema(&text).unwrap();
    assert_eq!(schema.name, "cleanup");
    assert_eq!(schema.description, Some("Tidy things".to_string()));
    assert_eq!(schema.tags, Some(vec!["ops".to_string(), "daily".to_string()]));
    assert_eq!(schema.fields.len(), 2);
    assert_eq!(schema.fields[0].name, "force");
    assert_eq!(schema.fields[0].kind, "bool");
    assert_eq!(schema.fields[0].order, 1);
    assert_eq!(schema.fields[0].required, Some(false));
    assert_eq!(schema.fields[1].name, "target");
    assert_eq!(schema.fields[1].default, Some("all".to_string()));
    assert_eq!(schema.fields[1].arg, Some("--target".to_string()));
    assert!(schema.outputs.is_none());
}

#[test]
fn extract_and_parse_round_trip_slash_prefix() {
    let slashed = BLOCK_HASH.replace("# ", "// ").replace("#!", "// !").replace("\n#\n", "\n//\n");
    let prefixes = comment_prefixes();
    let text = extract_schema_block(&slashed, &prefixes).unwrap();
    let schema = parse_schema(&text).unwrap();
    assert_eq!(schema.name, "cleanup");
    assert_eq!(schema.fields.len(), 2);
}

#[test]
fn missing_block_is_an_error() {
    let prefixes = comment_prefixes();
    assert_eq!(
        extract_schema_block("echo nothing\n", &prefixes),
        Err("Schema block not found".to_string())
    );
    assert_eq!(
        extract_schema_block("# OMAKURE_SCHEMA_START\n# {}\n", &prefixes),
        Err("Schema block not found".to_string())
    );
}

#[test]
fn empty_block_is_an_error() {
    let prefixes = comment_prefixes();
    let text = "# OMAKURE_SCHEMA_START\n# OMAKURE_SCHEMA_END\n";
    assert_eq!(
        extract_schema_block(text, &prefixes),
        Err("Schema block is empty".to_string())
    );
}

#[test]
fn uncommented_line_fails_with_its_number() {
    let prefixes = comment_prefixes();
    let text = "# OMAKURE_SCHEMA_START\n# {\nnot a comment\n# }\n# OMAKURE_SCHEMA_END\n";
    assert_eq!(
        extract_schema_block(text, &prefixes),
        Err("Schema block line 3 is not a comment".to_string())
    );
}

#[test]
fn parse_skips_leading_noise_and_bad_candidates() {
    let noisy = "WARN {not json} noise\n{\"Name\": \"x\", \"Fields\": []} trailing";
    let schema = parse_schema(noisy).unwrap();
    assert_eq!(schema.name, "x");
    assert!(schema.fields.is_empty());
}

#[test]
fn parse_requires_name_and_fields() {
    assert!(parse_schema("{\"Fields\": []}").is_err());
    assert!(parse_schema("{\"Name\": \"x\"}").is_err());
    assert!(parse_schema("no braces at all").is_err());
}

#[test]
fn parse_accepts_any_member_order_and_unknown_keys() {
    let text = "{\"Fields\": [], \"Extra\": {\"deep\": [1, 2.5, null]}, \"Name\": \"y\", \"Queue\": {\"Matrix\": []}}";
    let schema = parse_schema(text).unwrap();
    assert_eq!(schema.name, "y");
    assert!(schema.queue.is_none());
}

#[test]
fn parse_decodes_string_escapes() {
    let text = "{\"Name\": \"a\\u0041b\\n\\\"q\\\"\", \"Fields\": []}";
    let schema = parse_schema(text).unwrap();
    assert_eq!(schema.name, "aAb\n\"q\"");
}

#[test]
fn parse_rejects_bad_orders() {
    assert!(parse_schema("{\"Name\":\"x\",\"Fields\":[{\"Name\":\"f\",\"Type\":\"string\",\"Order\":-1}]}").is_err());
    assert!(parse_schema("{\"Name\":\"x\",\"Fields\":[{\"Name\":\"f\",\"Type\":\"string\",\"Order\":1.5}]}").is_err());
    assert!(parse_schema("{\"Name\":\"x\",\"Fields\":[{\"Name\":\"f\",\"Type\":\"string\",\"Order\":99999999999}]}").is_err());
}

#[test]
fn parse_reads_outputs() {
    let text = "{\"Name\":\"x\",\"Fields\":[],\"Outputs\":[{\"Name\":\"report\",\"Type\":\"file\"}]}";
    let schema = parse_schema(text).unwrap();
    let outs = schema.outputs.unwrap();
    assert_eq!(outs.len(), 1);
    assert_eq!(outs[0].name, "report");
    assert_eq!(outs[0].kind, "file");
}

#[test]
fn duplicate_known_keys_are_rejected() {
    assert!(parse_schema("{\"Name\":\"x\",\"Name\":\"y\",\"Fields\":[]}").is_err());
}

#[test]
fn rendered_blocks_extract_and_parse_back() {
    let payload = vec![
        "{".to_string(),
        "  \"Name\": \"cleanup\",".to_string(),
        "  \"Fields\": [{\"Name\": \"force\", \"Type\": \"bool\", \"Order\": 1}]".to_string(),
        "}".to_string(),
    ];
    for prefix in ["#", "//"] {
        let block = render_schema_block(&payload, prefix);
        let text = extract_schema_block(&block, &comment_prefixes()).unwrap();
        let schema = parse_schema(&text).unwrap();
        assert_eq!(schema.name, "cleanup");
        assert_eq!(schema.fields.len(), 1);
        assert_eq!(schema.fields[0].name, "force");
    }
}
