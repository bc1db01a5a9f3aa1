//! Fixed-point dependency resolution.
//!
//! A [`Descriptor`] declares a service by key, the keys of the services it
//! depends on, and the instance that stands for it once created. [`resolve`]
//! builds a registry from an unordered list of descriptors by repeatedly
//! creating every descriptor whose dependencies are already present, until
//! all are created or a pass makes no progress. A stuck pass means the
//! remaining descriptors form a dependency cycle (or wait on keys nobody
//! declares); resolution then fails, naming one unresolved descriptor, and
//! no registry is handed out.

use crate::registry::{Instance, Type};
use vstd::prelude::*;

verus! {

/// A declared service: its key, the keys it depends on, and the instance
/// created for it.
#[derive(Debug)]
pub struct Descriptor {
    pub key: String,
    pub deps: Vec<String>,
    pub instance: Instance,
}

/// Resolution failed: `unresolved` names a declared service that could not
/// be created because its dependencies never became available.
#[derive(Debug)]
pub struct CyclicDependency {
    pub unresolved: String,
}

/// No two descriptors declare the same key.
pub open spec fn unique_keys(descs: Seq<Descriptor>) -> bool {
    forall|i: int, j: int|
        0 <= i < j < descs.len() ==> (#[trigger] descs[i]).key@ != (#[trigger] descs[j]).key@
}

/// Entry `e` stems from some descriptor: same key, that descriptor's
/// instance.
pub open spec fn entry_from(descs: Seq<Descriptor>, e: (String, Instance)) -> bool {
    exists|i: int|
        0 <= i < descs.len() && (#[trigger] descs[i]).key@ == e.0@ && descs[i].instance == e.1
}

/// Every registry entry stems from a descriptor.
pub open spec fn entries_from(descs: Seq<Descriptor>, reg: Type) -> bool {
    forall|p: int| 0 <= p < reg.entries@.len() ==> entry_from(descs, #[trigger] reg.entries@[p])
}

/// Descriptor `d` has a dependency that is not in the registry.
pub open spec fn missing_dep(reg: Type, d: Descriptor) -> bool {
    exists|j: int| 0 <= j < d.deps@.len() && !reg.spec_contains((#[trigger] d.deps@[j])@)
}

/// Key `k` occurs among the entries before position `p`.
pub open spec fn key_before(reg: Seq<(String, Instance)>, p: int, k: Seq<char>) -> bool {
    exists|q: int| 0 <= q < p && (#[trigger] reg[q]).0@ == k
}

/// Every entry's dependencies (per its descriptor) sit at earlier positions:
/// the entry order is a creation order that respects dependencies.
pub open spec fn deps_before(descs: Seq<Descriptor>, reg: Seq<(String, Instance)>) -> bool {
    forall|p: int, i: int, j: int|
        #![trigger reg[p], descs[i].deps@[j]]
        0 <= p < reg.len() && 0 <= i < descs.len() && descs[i].key@ == reg[p].0@ && 0 <= j
            < descs[i].deps@.len() ==> key_before(reg, p, descs[i].deps@[j]@)
}

/// Index `i` occurs somewhere in `order`.
pub open spec fn appears(order: Seq<int>, i: int) -> bool {
    exists|a: int| 0 <= a < order.len() && (#[trigger] order[a]) == i
}

/// Key `k` belongs to a descriptor listed in `order` before position `a`.
pub open spec fn order_key_before(
    descs: Seq<Descriptor>,
    order: Seq<int>,
    a: int,
    k: Seq<char>,
) -> bool {
    exists|b: int| 0 <= b < a && descs[#[trigger] order[b]].key@ == k
}

/// A creation list: every listed descriptor is in range and each one's
/// dependencies are keys of descriptors listed earlier in the list.
pub open spec fn orderly(descs: Seq<Descriptor>, order: Seq<int>) -> bool {
    &&& forall|a: int| 0 <= a < order.len() ==> 0 <= (#[trigger] order[a]) < descs.len()
    &&& forall|a: int, j: int|
        #![trigger descs[order[a]].deps@[j]]
        0 <= a < order.len() && 0 <= j < descs[order[a]].deps@.len() ==> order_key_before(
            descs,
            order,
            a,
            descs[order[a]].deps@[j]@,
        )
}

/// `order` lists each descriptor exactly once, and each one's dependencies
/// are keys of descriptors listed earlier.
pub open spec fn valid_order(descs: Seq<Descriptor>, order: Seq<int>) -> bool {
    &&& order.len() == descs.len()
    &&& orderly(descs, order)
    &&& forall|i: int| 0 <= i < descs.len() ==> appears(order, i)
}

/// Descriptor `i` can be created at all: some dependency-respecting
/// creation list reaches it.
pub open spec fn creatable(descs: Seq<Descriptor>, i: int) -> bool {
    exists|order: Seq<int>| #[trigger] orderly(descs, order) && appears(order, i)
}

/// The descriptor set admits some creation order that satisfies every
/// dependency before the descriptor that needs it.
pub open spec fn resolvable(descs: Seq<Descriptor>) -> bool {
    exists|order: Seq<int>| valid_order(descs, order)
}

/// How many descriptors have no entry in the registry yet.
pub open spec fn count_missing(descs: Seq<Descriptor>, reg: Type) -> nat
    decreases descs.len(),
{
    if descs.len() == 0 {
        0
    } else {
        count_missing(descs.drop_last(), reg) + (if reg.spec_contains(descs.last().key@) {
            0nat
        } else {
            1nat
        })
    }
}

/// Whether every dependency key in `deps` is present in `reg`.
fn all_deps_present(reg: &Type, deps: &Vec<String>) -> (r: bool)
    ensures
        r == (forall|j: int| 0 <= j < deps@.len() ==> reg.spec_contains((#[trigger] deps@[j])@)),
{
    let n = deps.len();
    let mut j: usize = 0;
    while j < n
        invariant
            j <= n,
            n == deps@.len(),
            forall|k: int| 0 <= k < j ==> reg.spec_contains((#[trigger] deps@[k])@),
        decreases n - j,
    {
        if !reg.contains(&deps[j]) {
            return false;
        }
        j += 1;
    }
    true
}

/// Build a registry from `descs` by fixed-point iteration: each pass creates
/// every not-yet-created descriptor whose dependencies are all present, in
/// declaration order. Succeeds exactly when the descriptor set admits a
/// dependency-respecting creation order; the returned registry holds every
/// descriptor's key with its instance, in an order where each entry's
/// dependencies come earlier. On failure no registry is produced and the
/// error names one descriptor that was never created.
pub fn resolve(descs: &Vec<Descriptor>) -> (r: Result<Type, CyclicDependency>)
    requires
        unique_keys(descs@),
    ensures
        r matches Ok(reg) ==> {
            &&& reg.wf()
            &&& reg.spec_len() == descs@.len()
            &&& forall|i: int|
                0 <= i < descs@.len() ==> reg.spec_contains((#[trigger] descs@[i]).key@)
                    && reg.spec_value(descs@[i].key@) == descs@[i].instance
            &&& entries_from(descs@, reg)
            &&& deps_before(descs@, reg.entries@)
        },
        r is Ok <==> resolvable(descs@),
        r matches Err(e) ==> exists|i: int|
            0 <= i < descs@.len() && (#[trigger] descs@[i]).key@ == e.unresolved@ && !creatable(
                descs@,
                i,
            ),
{
    let mut reg = Type::default();
    proof {
        lemma_count_all_missing(descs@, reg);
    }
    let n = descs.len();
    loop
        invariant
            unique_keys(descs@),
            n == descs@.len(),
            reg.wf(),
            entries_from(descs@, reg),
            deps_before(descs@, reg.entries@),
            reg.spec_len() + count_missing(descs@, reg) == descs@.len(),
        decreases count_missing(descs@, reg),
    {
        let ghost start_count = count_missing(descs@, reg);
        let mut empty = true;
        let mut changed = false;
        let mut i: usize = 0;
        while i < n
            invariant
                unique_keys(descs@),
                n == descs@.len(),
                i <= n,
                reg.wf(),
                entries_from(descs@, reg),
                deps_before(descs@, reg.entries@),
                reg.spec_len() + count_missing(descs@, reg) == descs@.len(),
                empty ==> forall|k: int|
                    0 <= k < i ==> reg.spec_contains((#[trigger] descs@[k]).key@),
                !empty && !changed ==> exists|k: int|
                    0 <= k < i && !reg.spec_contains((#[trigger] descs@[k]).key@),
                !changed ==> forall|k: int|
                    0 <= k < i ==> reg.spec_contains((#[trigger] descs@[k]).key@) || missing_dep(
                        reg,
                        descs@[k],
                    ),
                count_missing(descs@, reg) <= start_count,
                changed ==> count_missing(descs@, reg) < start_count,
            decreases n - i,
        {
            let d = &descs[i];
            if !reg.contains(&d.key) {
                empty = false;
                if all_deps_present(&reg, &d.deps) {
                    let ghost pre = reg;
                    let _ = reg.insert(d.key.clone(), d.instance);
                    changed = true;
                    proof {
                        lemma_count_insert(descs@, pre, reg, i as int);
                        lemma_insert_maintains(descs@, pre, reg, i as int);
                    }
                } else {
                    proof {
                        assert(missing_dep(reg, descs@[i as int]));
                    }
                }
            }
            i += 1;
        }
        if empty {
            proof {
                lemma_all_present_none_missing(descs@, reg);
                lemma_values_match(descs@, reg);
                lemma_order_from_registry(descs@, reg);
            }
            return Ok(reg);
        }
        if !changed {
            proof {
                lemma_stuck_unresolvable(descs@, reg);
            }
            let mut k: usize = 0;
            while k < n
                invariant
                    n == descs@.len(),
                    k <= n,
                    unique_keys(descs@),
                    !resolvable(descs@),
                    forall|k0: int|
                        0 <= k0 < descs@.len() ==> reg.spec_contains((#[trigger] descs@[k0]).key@)
                            || missing_dep(reg, descs@[k0]),
                    exists|k0: int|
                        0 <= k0 < descs@.len() && !reg.spec_contains(
                            (#[trigger] descs@[k0]).key@,
                        ),
                    forall|k0: int|
                        0 <= k0 < k ==> reg.spec_contains((#[trigger] descs@[k0]).key@),
                decreases n - k,
            {
                if !reg.contains(&descs[k].key) {
                    proof {
                        lemma_stuck_uncreatable(descs@, reg, k as int);
                    }
                    return Err(CyclicDependency { unresolved: descs[k].key.clone() });
                }
                k += 1;
            }
            proof {
                assert(false);
            }
            return vstd::pervasive::unreached();
        }
    }
}

/// With an empty registry every descriptor is missing.
proof fn lemma_count_all_missing(descs: Seq<Descriptor>, reg: Type)
    requires
        reg.entries@.len() == 0,
    ensures
        count_missing(descs, reg) == descs.len(),
    decreases descs.len(),
{
    if descs.len() > 0 {
        lemma_count_all_missing(descs.drop_last(), reg);
        assert(!reg.spec_contains(descs.last().key@));
    }
}

/// When every descriptor's key is present, none is missing.
proof fn lemma_all_present_none_missing(descs: Seq<Descriptor>, reg: Type)
    requires
        forall|k: int| 0 <= k < descs.len() ==> reg.spec_contains((#[trigger] descs[k]).key@),
    ensures
        count_missing(descs, reg) == 0,
    decreases descs.len(),
{
    if descs.len() > 0 {
        assert forall|k: int|
            0 <= k < descs.drop_last().len() implies reg.spec_contains(
            (#[trigger] descs.drop_last()[k]).key@,
        ) by {
            assert(descs.drop_last()[k] == descs[k]);
        }
        lemma_all_present_none_missing(descs.drop_last(), reg);
        assert(reg.spec_contains(descs.last().key@));
    }
}

/// Registries that agree on which descriptor keys they contain have the
/// same number of missing descriptors.
proof fn lemma_count_congruent(descs: Seq<Descriptor>, r1: Type, r2: Type)
    requires
        forall|k: int|
            0 <= k < descs.len() ==> r1.spec_contains((#[trigger] descs[k]).key@)
                == r2.spec_contains(descs[k].key@),
    ensures
        count_missing(descs, r1) == count_missing(descs, r2),
    decreases descs.len(),
{
    if descs.len() > 0 {
        assert forall|k: int|
            0 <= k < descs.drop_last().len() implies r1.spec_contains(
            (#[trigger] descs.drop_last()[k]).key@,
        ) == r2.spec_contains(descs.drop_last()[k].key@) by {
            assert(descs.drop_last()[k] == descs[k]);
        }
        lemma_count_congruent(descs.drop_last(), r1, r2);
        assert(r1.spec_contains(descs.last().key@) == r2.spec_contains(descs.last().key@));
    }
}

/// Adding exactly the key of descriptor `i0` lowers the number of missing
/// descriptors by one.
proof fn lemma_count_insert(descs: Seq<Descriptor>, pre: Type, post: Type, i0: int)
    requires
        unique_keys(descs),
        0 <= i0 < descs.len(),
        !pre.spec_contains(descs[i0].key@),
        post.spec_contains(descs[i0].key@),
        forall|k: Seq<char>|
            k != descs[i0].key@ ==> #[trigger] post.spec_contains(k) == pre.spec_contains(k),
    ensures
        count_missing(descs, post) + 1 == count_missing(descs, pre),
    decreases descs.len(),
{
    let prefix = descs.drop_last();
    assert(unique_keys(prefix)) by {
        assert forall|i: int, j: int|
            0 <= i < j < prefix.len() implies (#[trigger] prefix[i]).key@ != (
            #[trigger] prefix[j]).key@ by {
            assert(prefix[i] == descs[i]);
            assert(prefix[j] == descs[j]);
        }
    }
    if i0 == descs.len() - 1 {
        assert forall|k: int|
            0 <= k < prefix.len() implies pre.spec_contains((#[trigger] prefix[k]).key@)
                == post.spec_contains(prefix[k].key@) by {
            assert(prefix[k] == descs[k]);
            assert(descs[k].key@ != descs[i0].key@);
        }
        lemma_count_congruent(prefix, pre, post);
        assert(descs.last() == descs[i0]);
    } else {
        assert(prefix[i0] == descs[i0]);
        lemma_count_insert(prefix, pre, post, i0);
        assert(descs.last() == descs[descs.len() - 1]);
        assert(descs[descs.len() - 1].key@ != descs[i0].key@);
        assert(post.spec_contains(descs.last().key@) == pre.spec_contains(descs.last().key@));
    }
}

/// Appending an entry for descriptor `i0`, all of whose dependencies are
/// already present, keeps the registry's entries descriptor-backed and
/// dependency-ordered.
proof fn lemma_insert_maintains(descs: Seq<Descriptor>, pre: Type, post: Type, i0: int)
    requires
        unique_keys(descs),
        0 <= i0 < descs.len(),
        pre.wf(),
        entries_from(descs, pre),
        deps_before(descs, pre.entries@),
        !pre.spec_contains(descs[i0].key@),
        forall|j: int|
            0 <= j < descs[i0].deps@.len() ==> pre.spec_contains((#[trigger] descs[i0].deps@[j])@),
        post.entries@.len() == pre.entries@.len() + 1,
        post.entries@[pre.entries@.len() as int].0@ == descs[i0].key@,
        post.entries@[pre.entries@.len() as int].1 == descs[i0].instance,
        forall|p: int| 0 <= p < pre.entries@.len() ==> post.entries@[p] == pre.entries@[p],
    ensures
        entries_from(descs, post),
        deps_before(descs, post.entries@),
{
    let m = pre.entries@.len() as int;
    assert forall|p: int| 0 <= p < post.entries@.len() implies entry_from(
        descs,
        #[trigger] post.entries@[p],
    ) by {
        if p < m {
            assert(post.entries@[p] == pre.entries@[p]);
            assert(entry_from(descs, pre.entries@[p]));
        } else {
            assert(0 <= i0 < descs.len() && descs[i0].key@ == post.entries@[p].0@
                && descs[i0].instance == post.entries@[p].1);
        }
    }
    assert forall|p: int, i: int, j: int|
        #![trigger post.entries@[p], descs[i].deps@[j]]
        0 <= p < post.entries@.len() && 0 <= i < descs.len() && descs[i].key@
            == post.entries@[p].0@ && 0 <= j < descs[i].deps@.len() implies key_before(
        post.entries@,
        p,
        descs[i].deps@[j]@,
    ) by {
        let dep = descs[i].deps@[j]@;
        if p < m {
            assert(post.entries@[p] == pre.entries@[p]);
            assert(descs[i].key@ == pre.entries@[p].0@);
            assert(key_before(pre.entries@, p, dep));
            let q = choose|q: int| 0 <= q < p && (#[trigger] pre.entries@[q]).0@ == dep;
            assert(post.entries@[q] == pre.entries@[q]);
            assert(0 <= q < p && post.entries@[q].0@ == dep);
        } else {
            if i != i0 {
                assert(descs[i].key@ == descs[i0].key@);
                assert(false);
            }
            assert(descs[i0].deps@[j] == descs[i].deps@[j]);
            assert(pre.spec_contains(dep));
            let q = pre.spec_index(dep);
            assert(0 <= q < m && pre.entries@[q].0@ == dep);
            assert(post.entries@[q] == pre.entries@[q]);
            assert(0 <= q < p && post.entries@[q].0@ == dep);
        }
    }
}

/// In a registry whose entries all stem from descriptors and that contains
/// every descriptor's key, each key holds that descriptor's instance.
proof fn lemma_values_match(descs: Seq<Descriptor>, reg: Type)
    requires
        unique_keys(descs),
        reg.wf(),
        entries_from(descs, reg),
        forall|k: int| 0 <= k < descs.len() ==> reg.spec_contains((#[trigger] descs[k]).key@),
    ensures
        forall|i: int|
            0 <= i < descs.len() ==> reg.spec_value((#[trigger] descs[i]).key@)
                == descs[i].instance,
{
    assert forall|i: int|
        0 <= i < descs.len() implies reg.spec_value((#[trigger] descs[i]).key@)
        == descs[i].instance by {
        let q = reg.spec_index(descs[i].key@);
        assert(0 <= q < reg.entries@.len() && reg.entries@[q].0@ == descs[i].key@);
        assert(entry_from(descs, reg.entries@[q]));
        let i2 = choose|i2: int|
            0 <= i2 < descs.len() && (#[trigger] descs[i2]).key@ == reg.entries@[q].0@
                && descs[i2].instance == reg.entries@[q].1;
        if i2 != i {
            assert(descs[i2].key@ == descs[i].key@);
            assert(false);
        }
    }
}

/// A full, dependency-ordered registry certifies that the descriptor set is
/// resolvable: the entry order, read back as descriptor indices, is a valid
/// creation order.
proof fn lemma_order_from_registry(descs: Seq<Descriptor>, reg: Type)
    requires
        unique_keys(descs),
        reg.wf(),
        entries_from(descs, reg),
        deps_before(descs, reg.entries@),
        forall|k: int| 0 <= k < descs.len() ==> reg.spec_contains((#[trigger] descs[k]).key@),
        reg.spec_len() == descs.len(),
    ensures
        resolvable(descs),
{
    let order = Seq::new(
        descs.len(),
        |p: int|
            choose|i: int|
                0 <= i < descs.len() && (#[trigger] descs[i]).key@ == reg.entries@[p].0@
                    && descs[i].instance == reg.entries@[p].1,
    );
    assert forall|a: int| 0 <= a < order.len() implies 0 <= (#[trigger] order[a]) < descs.len()
        && descs[order[a]].key@ == reg.entries@[a].0@ by {
        assert(entry_from(descs, reg.entries@[a]));
        let i = choose|i: int|
            0 <= i < descs.len() && (#[trigger] descs[i]).key@ == reg.entries@[a].0@
                && descs[i].instance == reg.entries@[a].1;
        assert(order[a] == i);
    }
    assert forall|i: int| 0 <= i < descs.len() implies appears(order, i) by {
        let q = reg.spec_index(descs[i].key@);
        assert(0 <= q < reg.entries@.len() && reg.entries@[q].0@ == descs[i].key@);
        assert(0 <= order[q] < descs.len() && descs[order[q]].key@ == reg.entries@[q].0@);
        if order[q] != i {
            assert(descs[order[q]].key@ == descs[i].key@);
            assert(false);
        }
        assert(0 <= q < order.len() && order[q] == i);
    }
    assert forall|a: int, j: int|
        #![trigger descs[order[a]].deps@[j]]
        0 <= a < order.len() && 0 <= j < descs[order[a]].deps@.len() implies order_key_before(
        descs,
        order,
        a,
        descs[order[a]].deps@[j]@,
    ) by {
        let i = order[a];
        let dep = descs[i].deps@[j]@;
        assert(descs[order[a]].deps@[j] == descs[i].deps@[j]);
        assert(descs[i].key@ == reg.entries@[a].0@);
        assert(key_before(reg.entries@, a, dep));
        let q = choose|q: int| 0 <= q < a && (#[trigger] reg.entries@[q]).0@ == dep;
        assert(descs[order[q]].key@ == reg.entries@[q].0@);
        assert(0 <= q < a && descs[order[q]].key@ == dep);
    }
    assert(orderly(descs, order));
    assert(valid_order(descs, order));
    assert(resolvable(descs));
}

/// When no waiting descriptor can make progress, every descriptor along a
/// creation list has in fact been created: walking the list backwards from
/// an uncreated one would find ever-earlier uncreated ones, without end.
proof fn lemma_created_along_order(descs: Seq<Descriptor>, reg: Type, order: Seq<int>, a: int)
    requires
        unique_keys(descs),
        orderly(descs, order),
        forall|k: int|
            0 <= k < descs.len() ==> reg.spec_contains((#[trigger] descs[k]).key@) || missing_dep(
                reg,
                descs[k],
            ),
        0 <= a < order.len(),
    ensures
        reg.spec_contains(descs[order[a]].key@),
    decreases a,
{
    let i = order[a];
    if !reg.spec_contains(descs[i].key@) {
        assert(missing_dep(reg, descs[i]));
        let j = choose|j: int|
            0 <= j < descs[i].deps@.len() && !reg.spec_contains((#[trigger] descs[i].deps@[j])@);
        let dep = descs[i].deps@[j]@;
        assert(descs[order[a]].deps@[j] == descs[i].deps@[j]);
        assert(order_key_before(descs, order, a, dep));
        let b = choose|b: int| 0 <= b < a && descs[#[trigger] order[b]].key@ == dep;
        lemma_created_along_order(descs, reg, order, b);
        assert(reg.spec_contains(descs[order[b]].key@));
        assert(false);
    }
}

/// A descriptor still uncreated when a pass created nothing cannot be
/// created by any dependency-respecting creation list.
proof fn lemma_stuck_uncreatable(descs: Seq<Descriptor>, reg: Type, k: int)
    requires
        unique_keys(descs),
        forall|k0: int|
            0 <= k0 < descs.len() ==> reg.spec_contains((#[trigger] descs[k0]).key@)
                || missing_dep(reg, descs[k0]),
        0 <= k < descs.len(),
        !reg.spec_contains(descs[k].key@),
    ensures
        !creatable(descs, k),
{
    if creatable(descs, k) {
        let order = choose|order: Seq<int>| #[trigger] orderly(descs, order) && appears(order, k);
        let a = choose|a: int| 0 <= a < order.len() && (#[trigger] order[a]) == k;
        lemma_created_along_order(descs, reg, order, a);
        assert(reg.spec_contains(descs[k].key@));
        assert(false);
    }
}

/// A pass that created nothing while descriptors remain uncreated shows the
/// set admits no valid creation order.
proof fn lemma_stuck_unresolvable(descs: Seq<Descriptor>, reg: Type)
    requires
        unique_keys(descs),
        forall|k: int|
            0 <= k < descs.len() ==> reg.spec_contains((#[trigger] descs[k]).key@) || missing_dep(
                reg,
                descs[k],
            ),
        exists|k: int| 0 <= k < descs.len() && !reg.spec_contains((#[trigger] descs[k]).key@),
    ensures
        !resolvable(descs),
{
    if resolvable(descs) {
        let order = choose|order: Seq<int>| valid_order(descs, order);
        let k0 = choose|k: int|
            0 <= k < descs.len() && !reg.spec_contains((#[trigger] descs[k]).key@);
        assert(appears(order, k0));
        let a = choose|a: int| 0 <= a < order.len() && (#[trigger] order[a]) == k0;
        lemma_created_along_order(descs, reg, order, a);
        assert(reg.spec_contains(descs[k0].key@));
        assert(false);
    }
}

} // verus!
