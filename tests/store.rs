use model_shards::device::{DeviceKind, Precision};
use model_shards::error::ModelError;
use model_shards::index::load_store;
use model_shards::shards::{resolve_entries, ResolvedShardPath, WeightEntry};
use model_shards::store::TensorStore;

fn entry(tensor: &str, shard: &str) -> WeightEntry {
    WeightEntry { tensor: tensor.to_string(), shard: Some(shard.to_string()) }
}

fn resolved(dir: &str, file: &str) -> ResolvedShardPath {
    ResolvedShardPath { directory: dir.to_string(), file_name: file.to_string() }
}

const SCENARIO: &str = r#"{"weight_map": {"layer.0.weight": "shard-a.bin", "layer.1.weight": "shard-a.bin", "layer.2.weight": "shard-b.bin"}}"#;

#[test]
fn scenario_store_answers_all_tensors() {
    let listing = vec!["shard-a.bin".to_string(), "shard-b.bin".to_string()];
    let s = load_store(SCENARIO, &"m".to_string(), &listing, DeviceKind::Cpu).unwrap();
    assert_eq!(s.lookup(&"layer.0.weight".to_string()), Ok(resolved("m", "shard-a.bin")));
    assert_eq!(s.lookup(&"layer.1.weight".to_string()), Ok(resolved("m", "shard-a.bin")));
    assert_eq!(s.lookup(&"layer.2.weight".to_string()), Ok(resolved("m", "shard-b.bin")));
    assert_eq!(s.shard_paths(), &vec![resolved("m", "shard-a.bin"), resolved("m", "shard-b.bin")]);
    assert_eq!(s.device(), DeviceKind::Cpu);
    assert_eq!(s.precision(), Precision::F32);
}

#[test]
fn unknown_tensor_is_not_found() {
    let listing = vec!["shard-a.bin".to_string(), "shard-b.bin".to_string()];
    let s = load_store(SCENARIO, &"m".to_string(), &listing, DeviceKind::Cpu).unwrap();
    assert_eq!(
        s.lookup(&"lm_head.weight".to_string()),
        Err(ModelError::TensorNotFound("lm_head.weight".to_string()))
    );
}

#[test]
fn scenario_missing_shard_builds_no_store() {
    let listing = vec!["shard-a.bin".to_string()];
    let r = load_store(SCENARIO, &"m".to_string(), &listing, DeviceKind::Cpu);
    assert_eq!(r.unwrap_err(), ModelError::ShardFileMissing("shard-b.bin".to_string()));
}

#[test]
fn empty_index_builds_no_store() {
    let r = load_store(r#"{"weight_map": {}}"#, &"m".to_string(), &vec![], DeviceKind::Cpu);
    assert_eq!(r.unwrap_err(), ModelError::EmptyWeightMap);
}

#[test]
fn cuda_store_uses_half_precision() {
    let listing = vec!["shard-a.bin".to_string(), "shard-b.bin".to_string()];
    let s = load_store(SCENARIO, &"m".to_string(), &listing, DeviceKind::Cuda(0)).unwrap();
    assert_eq!(s.precision(), Precision::BF16);
    assert_eq!(s.device(), DeviceKind::Cuda(0));
}

#[test]
fn build_over_resolved_shards() {
    let es = vec![entry("w1", "b"), entry("w2", "a"), WeightEntry { tensor: "w3".to_string(), shard: None }];
    let listing = vec!["a".to_string(), "b".to_string()];
    let shards = resolve_entries(&es, &"d".to_string(), &listing).unwrap();
    let s = TensorStore::build(&es, shards, DeviceKind::Metal(0), Precision::F32).unwrap();
    assert_eq!(s.lookup(&"w1".to_string()), Ok(resolved("d", "b")));
    assert_eq!(s.lookup(&"w2".to_string()), Ok(resolved("d", "a")));
    assert_eq!(s.lookup(&"w3".to_string()), Err(ModelError::TensorNotFound("w3".to_string())));
}

#[test]
fn build_rejects_shard_outside_the_list() {
    let es = vec![entry("w1", "a"), entry("w2", "z")];
    let shards = vec![resolved("d", "a")];
    let r = TensorStore::build(&es, shards, DeviceKind::Cpu, Precision::F32);
    assert_eq!(r.unwrap_err(), ModelError::UnsafeMappingError);
}
