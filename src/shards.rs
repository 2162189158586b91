//! From the weight map of an index document to the ordered list of shard
//! files, each found in the model directory.
use vstd::prelude::*;
use crate::error::ModelError;
use crate::order::{
    insert_sorted, lemma_lex_irreflexive, lemma_lex_transitive, lex_lt, strictly_sorted, views,
};

verus! {

/// One entry of the weight map: a tensor name and the value it maps to,
/// when that value is a string.
#[derive(Debug, Clone)]
pub struct WeightEntry {
    pub tensor: String,
    pub shard: Option<String>,
}

/// What the index document holds under its weight-map key.
#[derive(Debug, Clone)]
pub enum WeightMapField {
    /// There is no such field.
    Absent,
    /// The field is there but is not an object.
    NotAMap,
    /// The field is an object; its entries, keys unique.
    Entries(Vec<WeightEntry>),
}

/// A shard file name together with the model directory that holds it.
#[derive(Debug, Clone, PartialEq, Eq)]
pub struct ResolvedShardPath {
    pub directory: String,
    pub file_name: String,
}

/// The entry maps its tensor to the shard file `n`.
pub open spec fn names_shard(e: WeightEntry, n: Seq<char>) -> bool {
    e.shard is Some && e.shard->0@ == n
}

/// The distinct shard file names that the weight map refers to.
pub open spec fn shard_names(es: Seq<WeightEntry>) -> Set<Seq<char>> {
    Set::new(|n: Seq<char>| exists|i: int| 0 <= i < es.len() && #[trigger] names_shard(es[i], n))
}

/// The directory listing holds the file `n`.
pub open spec fn listed(listing: Seq<String>, n: Seq<char>) -> bool {
    views(listing).contains(n)
}

/// Every shard file of the weight map is in the listing.
pub open spec fn all_listed(es: Seq<WeightEntry>, listing: Seq<String>) -> bool {
    forall|n: Seq<char>| #[trigger] shard_names(es).contains(n) ==> listed(listing, n)
}

/// `n` is the first shard file, in name order, that the listing lacks.
pub open spec fn first_missing(es: Seq<WeightEntry>, listing: Seq<String>, n: Seq<char>) -> bool {
    &&& shard_names(es).contains(n)
    &&& !listed(listing, n)
    &&& forall|m: Seq<char>|
        #[trigger] shard_names(es).contains(m) && lex_lt(m, n) ==> listed(listing, m)
}

/// The file names of a list of resolved shards.
pub open spec fn file_names(out: Seq<ResolvedShardPath>) -> Seq<Seq<char>> {
    out.map_values(|p: ResolvedShardPath| p.file_name@)
}

/// `out` holds each shard file of the weight map once, in name order, each
/// under `directory`.
pub open spec fn resolves(es: Seq<WeightEntry>, directory: Seq<char>, out: Seq<ResolvedShardPath>) -> bool {
    &&& strictly_sorted(file_names(out))
    &&& file_names(out).to_set() == shard_names(es)
    &&& forall|k: int| 0 <= k < out.len() ==> (#[trigger] out[k]).directory@ == directory
}

/// The outcome of resolving the weight map `es`: success exactly when some
/// shard file is named and every named file is listed, and then each file
/// once, in name order; else the first missing file, or `EmptyWeightMap`.
pub open spec fn resolution_outcome(
    es: Seq<WeightEntry>,
    directory: Seq<char>,
    listing: Seq<String>,
    r: Result<Vec<ResolvedShardPath>, ModelError>,
) -> bool {
    &&& r is Ok <==> shard_names(es) != Set::<Seq<char>>::empty() && all_listed(es, listing)
    &&& match r {
        Ok(out) => resolves(es, directory, out@),
        Err(ModelError::ShardFileMissing(n)) => first_missing(es, listing, n@),
        Err(e) => e is EmptyWeightMap && shard_names(es) == Set::<Seq<char>>::empty(),
    }
}

/// An entry as plain values: its tensor name and its shard file, if any.
pub open spec fn entry_view(e: WeightEntry) -> (Seq<char>, Option<Seq<char>>) {
    (
        e.tensor@,
        match e.shard {
            Some(f) => Some(f@),
            None => None,
        },
    )
}

/// The entries of a weight map as plain values.
pub open spec fn entry_views(es: Seq<WeightEntry>) -> Seq<(Seq<char>, Option<Seq<char>>)> {
    es.map_values(|e: WeightEntry| entry_view(e))
}

/// Weight maps with the same entries, as plain values, name the same shard files.
pub proof fn lemma_views_determine_shards(a: Seq<WeightEntry>, b: Seq<WeightEntry>)
    requires
        entry_views(a) == entry_views(b),
    ensures
        shard_names(a) == shard_names(b),
{
    assert(a.len() == entry_views(a).len());
    assert(b.len() == entry_views(b).len());
    assert forall|i: int| 0 <= i < a.len() implies #[trigger] entry_view(a[i]) == entry_view(b[i]) by {
        assert(entry_views(a)[i] == entry_views(b)[i]);
    }
    assert forall|n: Seq<char>| shard_names(a).contains(n) <==> shard_names(b).contains(n) by {
        if shard_names(a).contains(n) {
            let i = choose|i: int| 0 <= i < a.len() && #[trigger] names_shard(a[i], n);
            assert(entry_view(a[i]) == entry_view(b[i]));
            assert(names_shard(b[i], n));
        }
        if shard_names(b).contains(n) {
            let i = choose|i: int| 0 <= i < b.len() && #[trigger] names_shard(b[i], n);
            assert(entry_view(a[i]) == entry_view(b[i]));
            assert(names_shard(a[i], n));
        }
    }
    assert(shard_names(a) =~= shard_names(b));
}

/// The distinct shard file names of the weight map, in name order.
pub fn shard_file_set(es: &Vec<WeightEntry>) -> (r: Vec<String>)
    ensures
        strictly_sorted(views(r@)),
        views(r@).to_set() == shard_names(es@),
{
    let mut r: Vec<String> = Vec::new();
    let n = es.len();
    let mut i: usize = 0;
    assert(views(r@).to_set() =~= Set::<Seq<char>>::empty());
    while i < n
        invariant
            n == es.len(),
            i <= n,
            strictly_sorted(views(r@)),
            forall|x: Seq<char>|
                #[trigger] views(r@).to_set().contains(x) <==> exists|j: int|
                    0 <= j < i && #[trigger] names_shard(es@[j], x),
        decreases n - i,
    {
        match &es[i].shard {
            Some(f) => {
                let ghost before = views(r@).to_set();
                insert_sorted(&mut r, f.clone());
                assert forall|x: Seq<char>| #[trigger] views(r@).to_set().contains(x) <==> exists|j: int|
                    0 <= j < i + 1 && #[trigger] names_shard(es@[j], x) by {
                    if x == f@ {
                        assert(names_shard(es@[i as int], x));
                    }
                    if exists|j: int| 0 <= j < i + 1 && #[trigger] names_shard(es@[j], x) {
                        let j = choose|j: int| 0 <= j < i + 1 && #[trigger] names_shard(es@[j], x);
                        if j < i {
                            assert(before.contains(x));
                        }
                    }
                }
            },
            None => {
                assert forall|x: Seq<char>| #[trigger] views(r@).to_set().contains(x) <==> exists|j: int|
                    0 <= j < i + 1 && #[trigger] names_shard(es@[j], x) by {
                    if exists|j: int| 0 <= j < i + 1 && #[trigger] names_shard(es@[j], x) {
                        let j = choose|j: int| 0 <= j < i + 1 && #[trigger] names_shard(es@[j], x);
                        assert(j < i);
                    }
                }
            },
        }
        i = i + 1;
    }
    assert(views(r@).to_set() =~= shard_names(es@));
    r
}

/// Whether the listing holds a file of this name.
pub fn is_listed(listing: &Vec<String>, name: &String) -> (r: bool)
    ensures
        r == listed(listing@, name@),
{
    let n = listing.len();
    let mut i: usize = 0;
    while i < n
        invariant
            n == listing.len(),
            i <= n,
            forall|k: int| 0 <= k < i ==> listing@[k]@ != name@,
        decreases n - i,
    {
        if listing[i] == *name {
            assert(views(listing@)[i as int] == name@);
            return true;
        }
        i = i + 1;
    }
    false
}


/// Resolves the shard files of a weight map against the model directory's
/// listing: each distinct file once, in name order; or the error that stops it.
pub fn resolve_entries(es: &Vec<WeightEntry>, directory: &String, listing: &Vec<String>) -> (r:
    Result<Vec<ResolvedShardPath>, ModelError>)
    ensures
        resolution_outcome(es@, directory@, listing@, r),
{
    let names = shard_file_set(es);
    let ghost s = views(names@);
    if names.len() == 0 {
        assert(s.to_set() =~= Set::<Seq<char>>::empty());
        return Err(ModelError::EmptyWeightMap);
    }
    assert(s.to_set().contains(s[0]));
    let mut out: Vec<ResolvedShardPath> = Vec::new();
    let n = names.len();
    let mut k: usize = 0;
    while k < n
        invariant
            n == names.len(),
            s == views(names@),
            s.to_set() == shard_names(es@),
            strictly_sorted(s),
            k <= n,
            out@.len() == k,
            file_names(out@) == s.take(k as int),
            forall|j: int| 0 <= j < k ==> listed(listing@, #[trigger] s[j]),
            forall|j: int| 0 <= j < out.len() ==> (#[trigger] out@[j]).directory@ == directory@,
        decreases n - k,
    {
        if !is_listed(listing, &names[k]) {
            let missing = names[k].clone();
            proof {
                assert(s.to_set().contains(s[k as int]));
                assert forall|m: Seq<char>| #[trigger]
                    shard_names(es@).contains(m) && lex_lt(m, missing@) implies listed(
                    listing@,
                    m,
                ) by {
                    assert(s.contains(m));
                    let j = choose|j: int| 0 <= j < s.len() && s[j] == m;
                    if j == k {
                        lemma_lex_irreflexive(m);
                    } else if j > k {
                        assert(lex_lt(s[k as int], s[j]));
                        lemma_lex_transitive(m, s[k as int], m);
                        lemma_lex_irreflexive(m);
                    }
                }
                assert(!all_listed(es@, listing@));
            }
            return Err(ModelError::ShardFileMissing(missing));
        }
        let file_name = names[k].clone();
        assert(file_name@ == s[k as int]);
        let ghost before = out@;
        out.push(ResolvedShardPath { directory: directory.clone(), file_name });
        assert(file_names(out@) =~= file_names(before).push(s[k as int]));
        assert(s.take(k + 1) =~= s.take(k as int).push(s[k as int]));
        k = k + 1;
    }
    assert(s.take(n as int) =~= s);
    assert forall|m: Seq<char>| #[trigger] shard_names(es@).contains(m) implies listed(listing@, m) by {
        assert(s.contains(m));
    }
    Ok(out)
}

/// Resolves the weight-map field of an index document: the field must be an
/// object, and then its entries are resolved as `resolve_entries` does.
pub fn resolve(field: &WeightMapField, directory: &String, listing: &Vec<String>) -> (r: Result<
    Vec<ResolvedShardPath>,
    ModelError,
>)
    ensures
        field is Absent ==> r matches Err(ModelError::MissingWeightMap),
        field is NotAMap ==> r matches Err(ModelError::MalformedWeightMap),
        field matches WeightMapField::Entries(es) ==> resolution_outcome(es@, directory@, listing@, r),
{
    match field {
        WeightMapField::Absent => Err(ModelError::MissingWeightMap),
        WeightMapField::NotAMap => Err(ModelError::MalformedWeightMap),
        WeightMapField::Entries(es) => resolve_entries(es, directory, listing),
    }
}


/// A weight map of `k` entries names at most `k` distinct shard files.
pub proof fn lemma_shard_count_bounded(es: Seq<WeightEntry>)
    ensures
        shard_names(es).finite(),
        shard_names(es).len() <= es.len(),
    decreases es.len(),
{
    if es.len() == 0 {
        assert(shard_names(es) =~= Set::<Seq<char>>::empty());
    } else {
        let init = es.drop_last();
        let last = es.len() - 1;
        lemma_shard_count_bounded(init);
        let s0 = shard_names(init);
        let s = shard_names(es);
        assert forall|n: Seq<char>| s.contains(n) ==> #[trigger] s0.contains(n) || names_shard(es[last], n) by {
            if s.contains(n) {
                let i = choose|i: int| 0 <= i < es.len() && #[trigger] names_shard(es[i], n);
                if i < last {
                    assert(init[i] == es[i]);
                }
            }
        }
        assert forall|n: Seq<char>| #[trigger] s0.contains(n) ==> s.contains(n) by {
            if s0.contains(n) {
                let i = choose|i: int| 0 <= i < init.len() && #[trigger] names_shard(init[i], n);
                assert(init[i] == es[i]);
            }
        }
        if es[last].shard is Some {
            let f = es[last].shard->0@;
            assert(names_shard(es[last], f));
            assert(s =~= s0.insert(f));
        } else {
            assert(s =~= s0);
        }
    }
}

/// Resolution yields one entry per distinct shard file of the weight map,
/// however many tensors share each file; so no more entries than the map has.
pub proof fn lemma_one_entry_per_shard(es: Seq<WeightEntry>, directory: Seq<char>, out: Seq<ResolvedShardPath>)
    requires
        resolves(es, directory, out),
    ensures
        shard_names(es).finite(),
        out.len() == shard_names(es).len(),
        out.len() <= es.len(),
{
    crate::order::lemma_sorted_len(file_names(out));
    lemma_shard_count_bounded(es);
}

/// Resolution depends only on the set of shard files: two weight maps that
/// name the same files, in any order and with any repetition, resolve to the
/// same ordered list, and so does one map resolved twice.
pub proof fn lemma_resolution_deterministic(
    es1: Seq<WeightEntry>,
    es2: Seq<WeightEntry>,
    directory: Seq<char>,
    out1: Seq<ResolvedShardPath>,
    out2: Seq<ResolvedShardPath>,
)
    requires
        shard_names(es1) == shard_names(es2),
        resolves(es1, directory, out1),
        resolves(es2, directory, out2),
    ensures
        file_names(out1) == file_names(out2),
        out1.len() == out2.len(),
        forall|k: int| 0 <= k < out1.len() ==> (#[trigger] out1[k]).directory@ == out2[k].directory@,
{
    crate::order::lemma_sorted_unique(file_names(out1), file_names(out2));
    assert(file_names(out1).len() == out1.len());
    assert forall|k: int| 0 <= k < out1.len() implies (#[trigger] out1[k]).directory@ == out2[k].directory@ by {
        assert(out2[k].directory@ == directory);
    }
}

/// A weight map with no string values, an empty one among them, names no
/// shard file, so its resolution fails with `EmptyWeightMap`.
pub proof fn lemma_empty_weight_map(es: Seq<WeightEntry>)
    requires
        forall|i: int| 0 <= i < es.len() ==> (#[trigger] es[i]).shard is None,
    ensures
        shard_names(es) == Set::<Seq<char>>::empty(),
{
    assert(shard_names(es) =~= Set::<Seq<char>>::empty());
}

/// When exactly one shard file of the weight map is absent from the listing,
/// resolution fails and the error names that file.
pub proof fn lemma_missing_shard_named(es: Seq<WeightEntry>, listing: Seq<String>, n: Seq<char>, m: Seq<char>)
    requires
        shard_names(es).contains(n),
        !listed(listing, n),
        forall|x: Seq<char>| #[trigger] shard_names(es).contains(x) && x != n ==> listed(listing, x),
        first_missing(es, listing, m),
    ensures
        !all_listed(es, listing),
        m == n,
{
}

} // verus!
