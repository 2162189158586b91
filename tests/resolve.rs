use model_shards::error::ModelError;
use model_shards::index::{load_safetensors, weight_map_field};
use model_shards::order::{insert_sorted, lex_less};
use model_shards::shards::{resolve, resolve_entries, shard_file_set, ResolvedShardPath, WeightEntry, WeightMapField};

fn entry(tensor: &str, shard: &str) -> WeightEntry {
    WeightEntry { tensor: tensor.to_string(), shard: Some(shard.to_string()) }
}

fn names(v: &[&str]) -> Vec<String> {
    v.iter().map(|s| s.to_string()).collect()
}

fn resolved(dir: &str, file: &str) -> ResolvedShardPath {
    ResolvedShardPath { directory: dir.to_string(), file_name: file.to_string() }
}

const SCENARIO: &str = r#"{"metadata": {"total_size": 12}, "weight_map": {"layer.0.weight": "shard-a.bin", "layer.1.weight": "shard-a.bin", "layer.2.weight": "shard-b.bin"}}"#;

#[test]
fn scenario_two_shards_resolved_in_order() {
    let dir = "models/m".to_string();
    let listing = names(&["config.json", "shard-b.bin", "shard-a.bin"]);
    let r = load_safetensors(SCENARIO, &dir, &listing).unwrap();
    assert_eq!(r, vec![resolved("models/m", "shard-a.bin"), resolved("models/m", "shard-b.bin")]);
}

#[test]
fn scenario_missing_second_shard() {
    let dir = "models/m".to_string();
    let listing = names(&["shard-a.bin"]);
    let r = load_safetensors(SCENARIO, &dir, &listing);
    assert_eq!(r, Err(ModelError::ShardFileMissing("shard-b.bin".to_string())));
}

#[test]
fn first_missing_file_in_name_order_is_reported() {
    let es = vec![entry("x", "c.bin"), entry("y", "b.bin"), entry("z", "a.bin")];
    let r = resolve_entries(&es, &"d".to_string(), &names(&["a.bin"]));
    assert_eq!(r, Err(ModelError::ShardFileMissing("b.bin".to_string())));
}

#[test]
fn dedup_gives_one_entry_per_file() {
    let es = vec![
        entry("t0", "s2.bin"),
        entry("t1", "s1.bin"),
        entry("t2", "s2.bin"),
        entry("t3", "s1.bin"),
        entry("t4", "s2.bin"),
    ];
    let r = resolve_entries(&es, &"d".to_string(), &names(&["s1.bin", "s2.bin"])).unwrap();
    assert_eq!(r.len(), 2);
    assert_eq!(r, vec![resolved("d", "s1.bin"), resolved("d", "s2.bin")]);
}

#[test]
fn resolution_ignores_input_order_and_repeats() {
    let listing = names(&["a", "b", "c"]);
    let d = "dir".to_string();
    let one = vec![entry("x", "c"), entry("y", "a"), entry("z", "b")];
    let two = vec![entry("p", "b"), entry("q", "a"), entry("r", "c"), entry("s", "a")];
    let r1 = resolve_entries(&one, &d, &listing).unwrap();
    let r1_again = resolve_entries(&one, &d, &listing).unwrap();
    let r2 = resolve_entries(&two, &d, &listing).unwrap();
    assert_eq!(r1, r1_again);
    assert_eq!(r1, r2);
    assert_eq!(r1, vec![resolved("dir", "a"), resolved("dir", "b"), resolved("dir", "c")]);
}

#[test]
fn empty_weight_map_is_an_error() {
    let r = load_safetensors(r#"{"weight_map": {}}"#, &"d".to_string(), &names(&["a.bin"]));
    assert_eq!(r, Err(ModelError::EmptyWeightMap));
}

#[test]
fn weight_map_without_string_values_is_empty() {
    let r = load_safetensors(r#"{"weight_map": {"a": 1, "b": null}}"#, &"d".to_string(), &names(&["a.bin"]));
    assert_eq!(r, Err(ModelError::EmptyWeightMap));
}

#[test]
fn non_string_values_are_skipped() {
    let text = r#"{"weight_map": {"a": 1, "b": "s.bin"}}"#;
    let r = load_safetensors(text, &"d".to_string(), &names(&["s.bin"])).unwrap();
    assert_eq!(r, vec![resolved("d", "s.bin")]);
}

#[test]
fn missing_weight_map_field() {
    let r = load_safetensors(r#"{"metadata": {}}"#, &"d".to_string(), &names(&[]));
    assert_eq!(r, Err(ModelError::MissingWeightMap));
}

#[test]
fn weight_map_that_is_not_an_object() {
    let r = load_safetensors(r#"{"weight_map": ["a.bin"]}"#, &"d".to_string(), &names(&["a.bin"]));
    assert_eq!(r, Err(ModelError::MalformedWeightMap));
}

#[test]
fn invalid_json_is_a_parse_error() {
    let r = load_safetensors("{\"weight_map\": ", &"d".to_string(), &names(&[]));
    assert_eq!(r, Err(ModelError::IndexParseError));
    assert!(weight_map_field("not json").is_err());
}

#[test]
fn weight_map_field_reads_entries() {
    match weight_map_field(SCENARIO).unwrap() {
        WeightMapField::Entries(es) => {
            let mut got: Vec<(String, Option<String>)> = es.into_iter().map(|e| (e.tensor, e.shard)).collect();
            got.sort();
            assert_eq!(
                got,
                vec![
                    ("layer.0.weight".to_string(), Some("shard-a.bin".to_string())),
                    ("layer.1.weight".to_string(), Some("shard-a.bin".to_string())),
                    ("layer.2.weight".to_string(), Some("shard-b.bin".to_string())),
                ]
            );
        }
        other => panic!("unexpected field {:?}", other),
    }
    assert!(matches!(weight_map_field("{}").unwrap(), WeightMapField::Absent));
    assert!(matches!(weight_map_field(r#"{"weight_map": "x"}"#).unwrap(), WeightMapField::NotAMap));
}

#[test]
fn resolve_dispatches_on_the_field() {
    let d = "d".to_string();
    let l = names(&["a"]);
    assert_eq!(resolve(&WeightMapField::Absent, &d, &l), Err(ModelError::MissingWeightMap));
    assert_eq!(resolve(&WeightMapField::NotAMap, &d, &l), Err(ModelError::MalformedWeightMap));
    assert_eq!(resolve(&WeightMapField::Entries(vec![]), &d, &l), Err(ModelError::EmptyWeightMap));
    assert_eq!(resolve(&WeightMapField::Entries(vec![entry("t", "a")]), &d, &l), Ok(vec![resolved("d", "a")]));
}

#[test]
fn shard_file_set_sorts_and_dedups() {
    let es = vec![entry("1", "b"), entry("2", "a"), entry("3", "b"), WeightEntry { tensor: "4".to_string(), shard: None }];
    assert_eq!(shard_file_set(&es), names(&["a", "b"]));
}

#[test]
fn lexicographic_order() {
    assert!(lex_less("a", "b"));
    assert!(!lex_less("b", "a"));
    assert!(lex_less("ab", "abc"));
    assert!(!lex_less("abc", "ab"));
    assert!(!lex_less("same", "same"));
    assert!(lex_less("", "x"));
    assert!(!lex_less("", ""));
    assert!(lex_less("model-00001-of-00002.safetensors", "model-00002-of-00002.safetensors"));
    assert!(lex_less("Z", "a"));
}

#[test]
fn insert_sorted_keeps_order_and_uniqueness() {
    let mut v: Vec<String> = Vec::new();
    for s in ["m", "c", "x", "c", "a", "m"] {
        insert_sorted(&mut v, s.to_string());
    }
    assert_eq!(v, names(&["a", "c", "m", "x"]));
}

#[test]
fn weight_map_field_of_nested_document() {
    let text = r#"{"weight_map": {"w": "s.bin"}, "other": {"weight_map": 3}}"#;
    match weight_map_field(text).unwrap() {
        WeightMapField::Entries(es) => {
            assert_eq!(es.len(), 1);
            assert_eq!(es[0].tensor, "w");
            assert_eq!(es[0].shard, Some("s.bin".to_string()));
        }
        other => panic!("unexpected field {:?}", other),
    }
    assert!(matches!(weight_map_field("[1, 2]").unwrap(), WeightMapField::Absent));
}
