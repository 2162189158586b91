//! Reading the weight map out of an index document, and the whole path from
//! an index document to a tensor store.
use vstd::prelude::*;
use crate::device::{precision_for, precision_of, DeviceKind};
use crate::error::ModelError;
use crate::shards::{
    entry_views, lemma_views_determine_shards, resolution_outcome, resolve, resolve_entries,
    resolves, shard_names, all_listed, first_missing, ResolvedShardPath, WeightEntry,
    WeightMapField,
};
use crate::store::{lemma_views_determine_catalogue, TensorStore};

verus! {

/// The key under which an index document holds its weight map.
pub const WEIGHT_MAP_KEY: &'static str = "weight_map";

/// What a JSON text holds under a key of its top-level object: none when the
/// text is not JSON; then none when the member is absent (or the document is
/// no object); then none when the member is no object; else the member's
/// entries, each key with its value when that value is a string.
pub uninterp spec fn member_entries_of(text: Seq<char>, key: Seq<char>) -> Option<
    Option<Option<Seq<(Seq<char>, Option<Seq<char>>)>>>,
>;

/// Relies on serde_json::from_str to parse the text, then on
/// serde_json::Value::get, Value::as_object and Value::as_str to read the
/// member under `key`; the result depends on the text and the key alone.
#[verifier::external_body]
fn read_member(text: &str, key: &str) -> (r: Option<Option<Option<Vec<WeightEntry>>>>)
    ensures
        match r {
            None => member_entries_of(text@, key@) is None,
            Some(None) => member_entries_of(text@, key@) matches Some(None),
            Some(Some(None)) => member_entries_of(text@, key@) matches Some(Some(None)),
            Some(Some(Some(v))) => member_entries_of(text@, key@) == Some(Some(Some(entry_views(v@)))),
        },
{
    let doc: serde_json::Value = match serde_json::from_str(text) {
        Ok(doc) => doc,
        Err(_) => return None,
    };
    Some(doc.get(key).map(|field| field.as_object().map(|m| m.iter().map(
        |(k, x)| WeightEntry { tensor: k.clone(), shard: x.as_str().map(String::from) },
    ).collect())))
}

/// What the index document `text` holds under the weight-map key.
pub open spec fn weight_map_member(text: Seq<char>) -> Option<
    Option<Option<Seq<(Seq<char>, Option<Seq<char>>)>>>,
> {
    member_entries_of(text, WEIGHT_MAP_KEY@)
}

/// Parses an index document and reads its weight-map field.
pub fn weight_map_field(index_text: &str) -> (r: Result<WeightMapField, ModelError>)
    ensures
        weight_map_member(index_text@) is None <==> r matches Err(ModelError::IndexParseError),
        r is Err ==> r matches Err(ModelError::IndexParseError),
        weight_map_member(index_text@) matches Some(None) ==> r matches Ok(WeightMapField::Absent),
        weight_map_member(index_text@) matches Some(Some(None)) ==> r matches Ok(WeightMapField::NotAMap),
        weight_map_member(index_text@) matches Some(Some(Some(ev))) ==> (r matches Ok(
            WeightMapField::Entries(v),
        ) && entry_views(v@) == ev),
{
    match read_member(index_text, WEIGHT_MAP_KEY) {
        None => Err(ModelError::IndexParseError),
        Some(None) => Ok(WeightMapField::Absent),
        Some(Some(None)) => Ok(WeightMapField::NotAMap),
        Some(Some(Some(es))) => Ok(WeightMapField::Entries(es)),
    }
}

/// Resolves the shard files of the index document `index_text` against the
/// listing of the model directory: each distinct file once, in name order.
pub fn load_safetensors(index_text: &str, directory: &String, listing: &Vec<String>) -> (r: Result<
    Vec<ResolvedShardPath>,
    ModelError,
>)
    ensures
        weight_map_member(index_text@) is None ==> r matches Err(ModelError::IndexParseError),
        weight_map_member(index_text@) matches Some(None) ==> r matches Err(ModelError::MissingWeightMap),
        weight_map_member(index_text@) matches Some(Some(None)) ==> r matches Err(
            ModelError::MalformedWeightMap,
        ),
        forall|es: Seq<WeightEntry>|
            weight_map_member(index_text@) == Some(Some(Some(#[trigger] entry_views(es))))
                ==> resolution_outcome(es, directory@, listing@, r),
{
    let field = weight_map_field(index_text)?;
    let r = resolve(&field, directory, listing);
    proof {
        assert forall|es: Seq<WeightEntry>|
            weight_map_member(index_text@) == Some(Some(Some(#[trigger] entry_views(es))))
                implies resolution_outcome(es, directory@, listing@, r) by {
            let v = field->Entries_0;
            lemma_views_determine_shards(es, v@);
        }
    }
    r
}

/// Builds the tensor store for a weight-map field: resolves its shard files
/// against the listing, then catalogues its tensors over them, in the
/// precision that suits the device. Nothing is built when resolution fails.
pub fn store_for_field(field: &WeightMapField, directory: &String, listing: &Vec<String>, device: DeviceKind) -> (r: Result<TensorStore, ModelError>)
    ensures
        field is Absent ==> r matches Err(ModelError::MissingWeightMap),
        field is NotAMap ==> r matches Err(ModelError::MalformedWeightMap),
        field matches WeightMapField::Entries(es) ==> store_outcome(es@, directory@, listing@, device, r),
{
    match field {
        WeightMapField::Absent => Err(ModelError::MissingWeightMap),
        WeightMapField::NotAMap => Err(ModelError::MalformedWeightMap),
        WeightMapField::Entries(es) => {
            let shards = resolve_entries(es, directory, listing)?;
            let ghost out = shards@;
            proof {
                assert forall|i: int| 0 <= i < es@.len() && (#[trigger] es@[i]).shard is Some
                    implies crate::store::provides(out, es@[i].shard->0@) by {
                    let f = es@[i].shard->0@;
                    assert(crate::shards::names_shard(es@[i], f));
                    assert(shard_names(es@).contains(f));
                    let names = crate::shards::file_names(out);
                    assert(names.to_set().contains(f));
                    let j = choose|j: int| 0 <= j < names.len() && names[j] == f;
                    assert(out[j].file_name@ == f);
                }
            }
            TensorStore::build(es, shards, device, precision_for(device))
        },
    }
}

/// The outcome of building the store for the weight map `es`: success exactly
/// when resolution succeeds, and then a store that catalogues `es` over the
/// resolved shards, on `device`, in the precision that suits it; else the
/// error that resolution gives.
pub open spec fn store_outcome(
    es: Seq<WeightEntry>,
    directory: Seq<char>,
    listing: Seq<String>,
    device: DeviceKind,
    r: Result<TensorStore, ModelError>,
) -> bool {
    &&& r is Ok <==> shard_names(es) != Set::<Seq<char>>::empty() && all_listed(es, listing)
    &&& match r {
        Ok(s) => {
            &&& s.catalogues(es)
            &&& resolves(es, directory, s.shards_spec())
            &&& s.device_spec() == device
            &&& s.precision_spec() == precision_of(device)
        },
        Err(ModelError::ShardFileMissing(n)) => first_missing(es, listing, n@),
        Err(e) => e is EmptyWeightMap && shard_names(es) == Set::<Seq<char>>::empty(),
    }
}

/// Parses the index document `index_text` and builds the tensor store over
/// its shard files, found in the listing of the model directory.
pub fn load_store(index_text: &str, directory: &String, listing: &Vec<String>, device: DeviceKind) -> (r: Result<TensorStore, ModelError>)
    ensures
        weight_map_member(index_text@) is None ==> r matches Err(ModelError::IndexParseError),
        weight_map_member(index_text@) matches Some(None) ==> r matches Err(ModelError::MissingWeightMap),
        weight_map_member(index_text@) matches Some(Some(None)) ==> r matches Err(
            ModelError::MalformedWeightMap,
        ),
        forall|es: Seq<WeightEntry>|
            weight_map_member(index_text@) == Some(Some(Some(#[trigger] entry_views(es))))
                ==> store_outcome(es, directory@, listing@, device, r),
{
    let field = weight_map_field(index_text)?;
    let r = store_for_field(&field, directory, listing, device);
    proof {
        assert forall|es: Seq<WeightEntry>|
            weight_map_member(index_text@) == Some(Some(Some(#[trigger] entry_views(es))))
                implies store_outcome(es, directory@, listing@, device, r) by {
            let v = field->Entries_0;
            lemma_views_determine_shards(es, v@);
            lemma_views_determine_catalogue(es, v@);
        }
    }
    r
}

} // verus!
