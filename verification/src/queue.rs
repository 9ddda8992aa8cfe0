use vstd::prelude::*;
use crate::errors::ResolveError;
use crate::index::PackageEntry;
use crate::text::bytes_eq;

verus! {

/// Position of the first index entry whose name is `name`, or the index
/// length when no entry matches: the earliest entry wins when names repeat.
pub open spec fn find_entry(index: Seq<(Seq<u8>, Seq<u8>)>, name: Seq<u8>) -> int
    decreases index.len(),
{
    if index.len() == 0 {
        0
    } else if index[0].0 == name {
        0
    } else {
        1 + find_entry(index.drop_first(), name)
    }
}

pub proof fn lemma_find_entry(index: Seq<(Seq<u8>, Seq<u8>)>, name: Seq<u8>)
    ensures
        0 <= find_entry(index, name) <= index.len(),
        forall|i: int| 0 <= i < find_entry(index, name) ==> index[i].0 != name,
        find_entry(index, name) < index.len() ==> index[find_entry(index, name)].0 == name,
    decreases index.len(),
{
    if index.len() > 0 && index[0].0 != name {
        lemma_find_entry(index.drop_first(), name);
        assert forall|i: int| 0 <= i < find_entry(index, name) implies index[i].0 != name by {
            if i > 0 {
                assert(index.drop_first()[i - 1].0 != name);
            }
        }
    }
}

/// The download queue for a request: for each requested name in order, the
/// first index entry carrying that name, if any.
pub open spec fn resolve_queue(index: Seq<(Seq<u8>, Seq<u8>)>, requested: Seq<Seq<u8>>) -> Seq<
    (Seq<u8>, Seq<u8>),
>
    decreases requested.len(),
{
    if requested.len() == 0 {
        Seq::empty()
    } else {
        let k = find_entry(index, requested[0]);
        let rest = resolve_queue(index, requested.drop_first());
        if k < index.len() {
            seq![index[k]] + rest
        } else {
            rest
        }
    }
}

/// The requested names that match no index entry, in request order.
pub open spec fn missing_names(index: Seq<(Seq<u8>, Seq<u8>)>, requested: Seq<Seq<u8>>) -> Seq<
    Seq<u8>,
>
    decreases requested.len(),
{
    if requested.len() == 0 {
        Seq::empty()
    } else {
        let k = find_entry(index, requested[0]);
        let rest = missing_names(index, requested.drop_first());
        if k < index.len() {
            rest
        } else {
            seq![requested[0]] + rest
        }
    }
}

pub proof fn lemma_resolve_append(
    index: Seq<(Seq<u8>, Seq<u8>)>,
    a: Seq<Seq<u8>>,
    b: Seq<Seq<u8>>,
)
    ensures
        resolve_queue(index, a + b) == resolve_queue(index, a) + resolve_queue(index, b),
        missing_names(index, a + b) == missing_names(index, a) + missing_names(index, b),
    decreases a.len(),
{
    if a.len() == 0 {
        assert(a + b =~= b);
        assert(resolve_queue(index, a) + resolve_queue(index, b) =~= resolve_queue(index, b));
        assert(missing_names(index, a) + missing_names(index, b) =~= missing_names(index, b));
    } else {
        assert((a + b).drop_first() =~= a.drop_first() + b);
        lemma_resolve_append(index, a.drop_first(), b);
        assert(resolve_queue(index, a + b) =~= resolve_queue(index, a) + resolve_queue(index, b));
        assert(missing_names(index, a + b) =~= missing_names(index, a) + missing_names(index, b));
    }
}

/// A resolved request: the download queue, and the requested names that were
/// not found (reported as warnings when skipping unavailable packages).
pub struct ResolvedRequest {
    pub queue: Vec<PackageEntry>,
    pub missing: Vec<Vec<u8>>,
}

/// Position of the first index entry named `name`, or the index length.
pub fn find_entry_vec(index: &Vec<PackageEntry>, name: &Vec<u8>) -> (r: usize)
    ensures
        r as int == find_entry(index@.map_values(|e: PackageEntry| e@), name@),
{
    let ghost iv = index@.map_values(|e: PackageEntry| e@);
    let mut k: usize = 0;
    while k < index.len()
        invariant
            k <= index@.len(),
            iv == index@.map_values(|e: PackageEntry| e@),
            forall|j: int| 0 <= j < k ==> iv[j].0 != name@,
        decreases index@.len() - k,
    {
        if bytes_eq(&index[k].name, name) {
            proof {
                lemma_find_entry(iv, name@);
                assert(iv[k as int].0 == name@);
            }
            return k;
        }
        k += 1;
    }
    proof {
        lemma_find_entry(iv, name@);
    }
    k
}

/// Resolves the requested names against the package index. Every requested
/// name found is queued, first index match winning; a name found nowhere is
/// missing. Without `skip_unavailable`, any missing name fails the whole
/// resolution and no queue is produced; with it, the found subset is queued
/// and the missing names are handed back as warnings.
pub fn resolve(index: &Vec<PackageEntry>, requested: &Vec<Vec<u8>>, skip_unavailable: bool) -> (r:
    Result<ResolvedRequest, ResolveError>)
    ensures
        ({
            let iv = index@.map_values(|e: PackageEntry| e@);
            let rv = requested@.map_values(|n: Vec<u8>| n@);
            &&& (r is Ok) == (skip_unavailable || missing_names(iv, rv).len() == 0)
            &&& (r matches Ok(p) ==> {
                &&& p.queue@.map_values(|e: PackageEntry| e@) == resolve_queue(iv, rv)
                &&& p.missing@.map_values(|n: Vec<u8>| n@) == missing_names(iv, rv)
            })
            &&& (r matches Err(e) ==> {
                &&& e matches ResolveError::PackagesUnavailable { missing } && missing@.map_values(
                    |n: Vec<u8>| n@,
                ) == missing_names(iv, rv)
                &&& !skip_unavailable
                &&& missing_names(iv, rv).len() > 0
            })
        }),
{
    let ghost iv = index@.map_values(|e: PackageEntry| e@);
    let ghost rv = requested@.map_values(|n: Vec<u8>| n@);
    let mut queue: Vec<PackageEntry> = Vec::new();
    let mut missing: Vec<Vec<u8>> = Vec::new();
    let mut k: usize = 0;
    proof {
        assert(rv.take(0) =~= Seq::<Seq<u8>>::empty());
        assert(queue@.map_values(|e: PackageEntry| e@) =~= resolve_queue(iv, rv.take(0)));
        assert(missing@.map_values(|n: Vec<u8>| n@) =~= missing_names(iv, rv.take(0)));
    }
    while k < requested.len()
        invariant
            k <= requested@.len(),
            iv == index@.map_values(|e: PackageEntry| e@),
            rv == requested@.map_values(|n: Vec<u8>| n@),
            queue@.map_values(|e: PackageEntry| e@) == resolve_queue(iv, rv.take(k as int)),
            missing@.map_values(|n: Vec<u8>| n@) == missing_names(iv, rv.take(k as int)),
        decreases requested@.len() - k,
    {
        let fk = find_entry_vec(index, &requested[k]);
        proof {
            assert(requested@[k as int]@ == rv[k as int]);
            lemma_find_entry(iv, rv[k as int]);
            assert(rv.take(k + 1) =~= rv.take(k as int) + seq![rv[k as int]]);
            lemma_resolve_append(iv, rv.take(k as int), seq![rv[k as int]]);
            assert(seq![rv[k as int]].drop_first() =~= Seq::<Seq<u8>>::empty());
            assert(resolve_queue(iv, Seq::<Seq<u8>>::empty()) == Seq::<(Seq<u8>, Seq<u8>)>::empty());
            assert(missing_names(iv, Seq::<Seq<u8>>::empty()) == Seq::<Seq<u8>>::empty());
        }
        if fk < index.len() {
            let entry = index[fk].clone();
            proof {
                assert(entry@ == iv[fk as int]);
                assert(resolve_queue(iv, seq![rv[k as int]]) =~= seq![iv[fk as int]]);
                assert(missing_names(iv, seq![rv[k as int]]) =~= Seq::<Seq<u8>>::empty());
                assert((queue@.push(entry)).map_values(|e: PackageEntry| e@) =~= queue@.map_values(
                    |e: PackageEntry| e@,
                ).push(entry@));
                assert(resolve_queue(iv, rv.take(k as int)) + seq![iv[fk as int]] =~= resolve_queue(
                    iv,
                    rv.take(k as int),
                ).push(iv[fk as int]));
                assert(missing_names(iv, rv.take(k as int)) + Seq::<Seq<u8>>::empty()
                    =~= missing_names(iv, rv.take(k as int)));
            }
            queue.push(entry);
        } else {
            let name = crate::text::subvec(&requested[k], 0, requested[k].len());
            proof {
                assert(name@ =~= rv[k as int]);
                assert(resolve_queue(iv, seq![rv[k as int]]) =~= Seq::<(Seq<u8>, Seq<u8>)>::empty());
                assert(missing_names(iv, seq![rv[k as int]]) =~= seq![rv[k as int]]);
                assert((missing@.push(name)).map_values(|n: Vec<u8>| n@) =~= missing@.map_values(
                    |n: Vec<u8>| n@,
                ).push(name@));
                assert(resolve_queue(iv, rv.take(k as int)) + Seq::<(Seq<u8>, Seq<u8>)>::empty()
                    =~= resolve_queue(iv, rv.take(k as int)));
                assert(missing_names(iv, rv.take(k as int)) + seq![rv[k as int]] =~= missing_names(
                    iv,
                    rv.take(k as int),
                ).push(rv[k as int]));
            }
            missing.push(name);
        }
        k += 1;
    }
    proof {
        assert(rv.take(requested@.len() as int) =~= rv);
    }
    if missing.len() > 0 && !skip_unavailable {
        proof {
            assert(missing@.map_values(|n: Vec<u8>| n@).len() == missing@.len());
        }
        Err(ResolveError::PackagesUnavailable { missing })
    } else {
        proof {
            assert(missing@.map_values(|n: Vec<u8>| n@).len() == missing@.len());
        }
        Ok(ResolvedRequest { queue, missing })
    }
}

} // verus!
