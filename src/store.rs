//! The tensor store: which shard holds each tensor of the weight map, on
//! which device and in which precision the tensors are to be mapped.
use vstd::prelude::*;
use crate::device::{DeviceKind, Precision};
use crate::error::ModelError;
use crate::shards::{names_shard, ResolvedShardPath, WeightEntry};

verus! {

/// A tensor name and the position of its shard among the store's shards.
#[derive(Debug)]
pub struct TensorSlot {
    pub name: String,
    pub shard: usize,
}

/// An immutable catalogue of tensors over a list of resolved shards.
#[derive(Debug)]
pub struct TensorStore {
    device: DeviceKind,
    precision: Precision,
    shards: Vec<ResolvedShardPath>,
    slots: Vec<TensorSlot>,
}

/// The names of the tensors that the weight map assigns to a shard file.
pub open spec fn tensor_keys(es: Seq<WeightEntry>) -> Set<Seq<char>> {
    Set::new(|n: Seq<char>| exists|i: int| 0 <= i < es.len() && #[trigger] es[i].tensor@ == n && es[i].shard is Some)
}

/// The weight map assigns tensor `n` to the shard file `f`.
pub open spec fn assigns(es: Seq<WeightEntry>, n: Seq<char>, f: Seq<char>) -> bool {
    exists|i: int| 0 <= i < es.len() && #[trigger] es[i].tensor@ == n && names_shard(es[i], f)
}

/// Some shard of the list has the file name `f`.
pub open spec fn provides(shards: Seq<ResolvedShardPath>, f: Seq<char>) -> bool {
    exists|j: int| 0 <= j < shards.len() && #[trigger] shards[j].file_name@ == f
}

/// Some slot holds tensor `n` in a shard whose file name is `f`.
pub open spec fn slot_holds(slots: Seq<TensorSlot>, shards: Seq<ResolvedShardPath>, n: Seq<char>, f: Seq<char>) -> bool {
    exists|k: int| 0 <= k < slots.len() && #[trigger] slots[k].name@ == n && shards[slots[k].shard as int].file_name@ == f
}

/// The tensor names of the slots.
pub open spec fn slot_names(slots: Seq<TensorSlot>) -> Set<Seq<char>> {
    Set::new(|n: Seq<char>| exists|k: int| 0 <= k < slots.len() && #[trigger] slots[k].name@ == n)
}

impl TensorStore {
    /// Every slot points at one of the store's shards.
    pub closed spec fn wf(&self) -> bool {
        forall|k: int| 0 <= k < self.slots@.len() ==> #[trigger] self.slots@[k].shard < self.shards@.len()
    }

    /// The store holds tensor `n` in the shard file `f`.
    pub closed spec fn holds(&self, n: Seq<char>, f: Seq<char>) -> bool {
        slot_holds(self.slots@, self.shards@, n, f)
    }

    /// The names of the tensors the store can answer for.
    pub closed spec fn names(&self) -> Set<Seq<char>> {
        slot_names(self.slots@)
    }

    pub closed spec fn device_spec(&self) -> DeviceKind {
        self.device
    }

    pub closed spec fn precision_spec(&self) -> Precision {
        self.precision
    }

    pub closed spec fn shards_spec(&self) -> Seq<ResolvedShardPath> {
        self.shards@
    }

    /// The store answers exactly for the tensors of the weight map `es`, each
    /// in the shard file that the map assigns to it.
    pub open spec fn catalogues(&self, es: Seq<WeightEntry>) -> bool {
        &&& self.wf()
        &&& self.names() == tensor_keys(es)
        &&& forall|n: Seq<char>, f: Seq<char>| #[trigger] self.holds(n, f) <==> assigns(es, n, f)
    }

    /// Builds the store for the weight map `entries` over the resolved shards.
    /// Fails with `UnsafeMappingError` when the map assigns a tensor to a file
    /// that is not among the shards.
    pub fn build(entries: &Vec<WeightEntry>, shards: Vec<ResolvedShardPath>, device: DeviceKind, precision: Precision) -> (r: Result<TensorStore, ModelError>)
        ensures
            r is Ok <==> forall|i: int| 0 <= i < entries@.len() && (#[trigger] entries@[i]).shard is Some
                ==> provides(shards@, entries@[i].shard->0@),
            r matches Ok(s) ==> {
                &&& s.catalogues(entries@)
                &&& s.device_spec() == device
                &&& s.precision_spec() == precision
                &&& s.shards_spec() == shards@
            },
            r matches Err(e) ==> e is UnsafeMappingError,
    {
        let mut slots: Vec<TensorSlot> = Vec::new();
        let n = entries.len();
        let mut i: usize = 0;
        assert(slot_names(slots@) =~= tensor_keys(entries@.take(0)));
        while i < n
            invariant
                n == entries.len(),
                i <= n,
                forall|k: int| 0 <= k < slots@.len() ==> #[trigger] slots@[k].shard < shards@.len(),
                forall|j: int| 0 <= j < i && (#[trigger] entries@[j]).shard is Some
                    ==> provides(shards@, entries@[j].shard->0@),
                forall|x: Seq<char>, f: Seq<char>|
                    #[trigger] slot_holds(slots@, shards@, x, f) <==> assigns(entries@.take(i as int), x, f),
                slot_names(slots@) == tensor_keys(entries@.take(i as int)),
            decreases n - i,
        {
            let ghost es = entries@;
            let ghost old_slots = slots@;
            assert(es.take(i + 1) =~= es.take(i as int).push(es[i as int]));
            match &entries[i].shard {
                None => {
                    assert forall|x: Seq<char>, f: Seq<char>|
                        #[trigger] slot_holds(slots@, shards@, x, f) <==> assigns(es.take(i + 1), x, f) by {
                        if assigns(es.take(i + 1), x, f) {
                            let q = choose|q: int| 0 <= q < i + 1 && #[trigger] es.take(i + 1)[q].tensor@ == x
                                && names_shard(es.take(i + 1)[q], f);
                            assert(es.take(i as int)[q] == es[q]);
                        }
                        if assigns(es.take(i as int), x, f) {
                            let q = choose|q: int| 0 <= q < i && #[trigger] es.take(i as int)[q].tensor@ == x
                                && names_shard(es.take(i as int)[q], f);
                            assert(es.take(i + 1)[q] == es[q]);
                        }
                    }
                    assert forall|x: Seq<char>| #[trigger] tensor_keys(es.take(i + 1)).contains(x)
                        <==> tensor_keys(es.take(i as int)).contains(x) by {
                        if tensor_keys(es.take(i + 1)).contains(x) {
                            let q = choose|q: int| 0 <= q < i + 1 && #[trigger] es.take(i + 1)[q].tensor@ == x
                                && es.take(i + 1)[q].shard is Some;
                            assert(es.take(i as int)[q] == es[q]);
                        }
                        if tensor_keys(es.take(i as int)).contains(x) {
                            let q = choose|q: int| 0 <= q < i && #[trigger] es.take(i as int)[q].tensor@ == x
                                && es.take(i as int)[q].shard is Some;
                            assert(es.take(i + 1)[q] == es[q]);
                        }
                    }
                    assert(tensor_keys(es.take(i + 1)) =~= tensor_keys(es.take(i as int)));
                },
                Some(f) => {
                    let m = shards.len();
                    let mut j: usize = 0;
                    let mut found = false;
                    while j < m && !found
                        invariant
                            m == shards.len(),
                            j <= m,
                            found ==> j < m && shards@[j as int].file_name@ == f@,
                            !found ==> forall|q: int| 0 <= q < j ==> shards@[q].file_name@ != f@,
                        decreases m - j + (if found { 0int } else { 1int }),
                    {
                        if shards[j].file_name == *f {
                            found = true;
                        } else {
                            j = j + 1;
                        }
                    }
                    if !found {
                        return Err(ModelError::UnsafeMappingError);
                    }
                    let name = entries[i].tensor.clone();
                    slots.push(TensorSlot { name, shard: j });
                    let ghost t = es[i as int].tensor@;
                    assert(slots@[old_slots.len() as int].name@ == t);
                    assert forall|x: Seq<char>, g: Seq<char>|
                        #[trigger] slot_holds(slots@, shards@, x, g) <==> assigns(es.take(i + 1), x, g) by {
                        if slot_holds(slots@, shards@, x, g) {
                            let k = choose|k: int| 0 <= k < slots@.len() && #[trigger] slots@[k].name@ == x
                                && shards@[slots@[k].shard as int].file_name@ == g;
                            if k < old_slots.len() {
                                assert(old_slots[k] == slots@[k]);
                                assert(slot_holds(old_slots, shards@, x, g));
                                let q = choose|q: int| 0 <= q < i && #[trigger] es.take(i as int)[q].tensor@ == x
                                    && names_shard(es.take(i as int)[q], g);
                                assert(es.take(i + 1)[q] == es[q]);
                            } else {
                                assert(es.take(i + 1)[i as int] == es[i as int]);
                            }
                        }
                        if assigns(es.take(i + 1), x, g) {
                            let q = choose|q: int| 0 <= q < i + 1 && #[trigger] es.take(i + 1)[q].tensor@ == x
                                && names_shard(es.take(i + 1)[q], g);
                            if q < i {
                                assert(es.take(i as int)[q] == es[q]);
                                assert(assigns(es.take(i as int), x, g));
                                assert(slot_holds(old_slots, shards@, x, g));
                                let k = choose|k: int| 0 <= k < old_slots.len() && #[trigger] old_slots[k].name@ == x
                                    && shards@[old_slots[k].shard as int].file_name@ == g;
                                assert(slots@[k] == old_slots[k]);
                            } else {
                                let k = old_slots.len() as int;
                                assert(slots@[k].name@ == x);
                            }
                        }
                    }
                    assert forall|x: Seq<char>| #[trigger] tensor_keys(es.take(i + 1)).contains(x)
                        <==> slot_names(slots@).contains(x) by {
                        if tensor_keys(es.take(i + 1)).contains(x) {
                            let q = choose|q: int| 0 <= q < i + 1 && #[trigger] es.take(i + 1)[q].tensor@ == x
                                && es.take(i + 1)[q].shard is Some;
                            if q < i {
                                assert(es.take(i as int)[q] == es[q]);
                                assert(tensor_keys(es.take(i as int)).contains(x));
                                assert(slot_names(old_slots).contains(x));
                                let k = choose|k: int| 0 <= k < old_slots.len() && #[trigger] old_slots[k].name@ == x;
                                assert(slots@[k] == old_slots[k]);
                            } else {
                                assert(slots@[old_slots.len() as int].name@ == x);
                            }
                        }
                        if slot_names(slots@).contains(x) {
                            let k = choose|k: int| 0 <= k < slots@.len() && #[trigger] slots@[k].name@ == x;
                            if k < old_slots.len() {
                                assert(old_slots[k] == slots@[k]);
                                assert(slot_names(old_slots).contains(x));
                                let q = choose|q: int| 0 <= q < i && #[trigger] es.take(i as int)[q].tensor@ == x
                                    && es.take(i as int)[q].shard is Some;
                                assert(es.take(i + 1)[q] == es[q]);
                            } else {
                                assert(es.take(i + 1)[i as int] == es[i as int]);
                            }
                        }
                    }
                    assert(tensor_keys(es.take(i + 1)) =~= slot_names(slots@));
                },
            }
            i = i + 1;
        }
        assert(entries@.take(n as int) =~= entries@);
        let s = TensorStore { device, precision, shards, slots };
        Ok(s)
    }

    /// The shard that holds the tensor `name`; `TensorNotFound` for a name
    /// the store does not answer for.
    pub fn lookup(&self, name: &String) -> (r: Result<ResolvedShardPath, ModelError>)
        requires
            self.wf(),
        ensures
            r is Ok <==> self.names().contains(name@),
            r matches Ok(p) ==> self.holds(name@, p.file_name@),
            r matches Ok(p) ==> exists|j: int| 0 <= j < self.shards_spec().len() && p == #[trigger] self.shards_spec()[j],
            r matches Err(e) ==> (e matches ModelError::TensorNotFound(n) && n@ == name@),
    {
        let n = self.slots.len();
        let mut k: usize = 0;
        while k < n
            invariant
                n == self.slots.len(),
                k <= n,
                self.wf(),
                forall|q: int| 0 <= q < k ==> self.slots@[q].name@ != name@,
            decreases n - k,
        {
            if self.slots[k].name == *name {
                assert(self.slots@[k as int].shard < self.shards@.len());
                let p = &self.shards[self.slots[k].shard];
                let found = ResolvedShardPath { directory: p.directory.clone(), file_name: p.file_name.clone() };
                assert(slot_names(self.slots@).contains(name@));
                assert(found == self.shards@[self.slots@[k as int].shard as int]);
                assert(found == self.shards_spec()[self.slots@[k as int].shard as int]);
                return Ok(found);
            }
            k = k + 1;
        }
        assert(!slot_names(self.slots@).contains(name@));
        Err(ModelError::TensorNotFound(name.clone()))
    }

    /// The device the tensors are to be mapped on.
    pub fn device(&self) -> (r: DeviceKind)
        ensures
            r == self.device_spec(),
    {
        self.device
    }

    /// The precision the tensors are to be loaded in.
    pub fn precision(&self) -> (r: Precision)
        ensures
            r == self.precision_spec(),
    {
        self.precision
    }

    /// The resolved shard files behind the store.
    pub fn shard_paths(&self) -> (r: &Vec<ResolvedShardPath>)
        ensures
            r@ == self.shards_spec(),
    {
        &self.shards
    }
}


/// Weight maps with the same entries, as plain values, assign the same tensors
/// to the same shard files.
pub proof fn lemma_views_determine_catalogue(a: Seq<WeightEntry>, b: Seq<WeightEntry>)
    requires
        crate::shards::entry_views(a) == crate::shards::entry_views(b),
    ensures
        tensor_keys(a) == tensor_keys(b),
        forall|n: Seq<char>, f: Seq<char>| #[trigger] assigns(a, n, f) == assigns(b, n, f),
{
    assert(a.len() == crate::shards::entry_views(a).len());
    assert(b.len() == crate::shards::entry_views(b).len());
    assert forall|i: int| 0 <= i < a.len() implies #[trigger] a[i].tensor@ == b[i].tensor@ && (a[i].shard is Some
        <==> b[i].shard is Some) && (a[i].shard is Some ==> a[i].shard->0@ == b[i].shard->0@) by {
        assert(crate::shards::entry_views(a)[i] == crate::shards::entry_views(b)[i]);
        assert(crate::shards::entry_view(a[i]) == crate::shards::entry_view(b[i]));
    }
    assert forall|n: Seq<char>| tensor_keys(a).contains(n) <==> tensor_keys(b).contains(n) by {
        if tensor_keys(a).contains(n) {
            let i = choose|i: int| 0 <= i < a.len() && #[trigger] a[i].tensor@ == n && a[i].shard is Some;
            assert(b[i].tensor@ == n);
        }
        if tensor_keys(b).contains(n) {
            let i = choose|i: int| 0 <= i < b.len() && #[trigger] b[i].tensor@ == n && b[i].shard is Some;
            assert(a[i].tensor@ == n);
        }
    }
    assert(tensor_keys(a) =~= tensor_keys(b));
    assert forall|n: Seq<char>, f: Seq<char>| #[trigger] assigns(a, n, f) == assigns(b, n, f) by {
        if assigns(a, n, f) {
            let i = choose|i: int| 0 <= i < a.len() && #[trigger] a[i].tensor@ == n && names_shard(a[i], f);
            assert(b[i].tensor@ == n);
        }
        if assigns(b, n, f) {
            let i = choose|i: int| 0 <= i < b.len() && #[trigger] b[i].tensor@ == n && names_shard(b[i], f);
            assert(a[i].tensor@ == n);
        }
    }
}

/// A store built for a weight map answers for every tensor of the map, from
/// the shard the map assigns it to, and for no other name.
pub proof fn lemma_store_answers_weight_map(s: TensorStore, es: Seq<WeightEntry>, n: Seq<char>, f: Seq<char>)
    requires
        s.catalogues(es),
    ensures
        tensor_keys(es).contains(n) <==> s.names().contains(n),
        assigns(es, n, f) <==> s.holds(n, f),
{
}

} // verus!
