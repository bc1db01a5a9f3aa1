//! Keyed store of dynamically typed service instances.
//!
//! `Type` maps a service name to an [`Instance`]. An instance carries a
//! numeric type tag beside its handle, so a read under the wrong tag is
//! answered with an error instead of a panic, mirroring a downcast that
//! fails. Keys are unique; inserting an existing key replaces its value and
//! hands the old one back.

use vstd::prelude::*;

verus! {

/// An entry exists under the requested key but carries a different type tag,
/// so it cannot be converted to the requested type.
#[derive(Clone, Copy, PartialEq, Eq, Structural, Debug)]
pub struct Error;

/// A dynamically typed service instance: `tag` identifies the concrete type
/// of the stored object, `handle` stands for the object itself.
#[derive(Clone, Copy, PartialEq, Eq, Structural, Debug)]
pub struct Instance {
    pub tag: u64,
    pub handle: u64,
}

/// Registry of service instances, keyed by name. Entries keep insertion
/// order, which records the order in which services were created.
#[derive(Debug)]
pub struct Type {
    pub entries: Vec<(String, Instance)>,
}

impl Type {
    /// Keys are unique.
    pub open spec fn wf(self) -> bool {
        forall|i: int, j: int|
            0 <= i < j < self.entries@.len() ==> (#[trigger] self.entries@[i]).0@ != (
            #[trigger] self.entries@[j]).0@
    }

    pub open spec fn spec_len(self) -> nat {
        self.entries@.len()
    }

    pub open spec fn spec_contains(self, key: Seq<char>) -> bool {
        exists|i: int| 0 <= i < self.entries@.len() && (#[trigger] self.entries@[i]).0@ == key
    }

    pub open spec fn spec_index(self, key: Seq<char>) -> int {
        choose|i: int| 0 <= i < self.entries@.len() && (#[trigger] self.entries@[i]).0@ == key
    }

    /// The instance stored under `key`, meaningful when `spec_contains` holds.
    pub open spec fn spec_value(self, key: Seq<char>) -> Instance {
        self.entries@[self.spec_index(key)].1
    }

    /// Number of entries.
    pub fn len(&self) -> (r: usize)
        ensures
            r == self.spec_len(),
    {
        self.entries.len()
    }

    /// The key of the `i`-th entry, in insertion order.
    pub fn key_at(&self, i: usize) -> (k: &String)
        requires
            i < self.spec_len(),
        ensures
            k@ == self.entries@[i as int].0@,
    {
        &self.entries[i].0
    }

    /// Index of the entry holding `key`, if any.
    fn find_index(&self, key: &String) -> (r: Option<usize>)
        ensures
            match r {
                Some(i) => i < self.spec_len() && self.entries@[i as int].0@ == key@,
                None => forall|k: int|
                    0 <= k < self.spec_len() ==> (#[trigger] self.entries@[k]).0@ != key@,
            },
    {
        let n = self.entries.len();
        let mut i: usize = 0;
        while i < n
            invariant
                i <= n,
                n == self.spec_len(),
                forall|k: int| 0 <= k < i ==> (#[trigger] self.entries@[k]).0@ != key@,
            decreases n - i,
        {
            if self.entries[i].0 == *key {
                return Some(i);
            }
            i += 1;
        }
        None
    }

    /// Whether an entry exists under `key`.
    pub fn contains(&self, key: &String) -> (r: bool)
        ensures
            r == self.spec_contains(key@),
    {
        self.find_index(key).is_some()
    }

    /// Insert `value` under `key`. Returns the value previously stored under
    /// `key`, if one existed; in that case the old entry is replaced in
    /// place, otherwise the new entry is appended.
    pub fn insert(&mut self, key: String, value: Instance) -> (r: Option<Instance>)
        requires
            old(self).wf(),
        ensures
            final(self).wf(),
            final(self).spec_contains(key@),
            final(self).spec_value(key@) == value,
            forall|k: Seq<char>|
                k != key@ ==> #[trigger] final(self).spec_contains(k) == old(self).spec_contains(k),
            forall|k: Seq<char>|
                k != key@ && old(self).spec_contains(k) ==> #[trigger] final(self).spec_value(k)
                    == old(self).spec_value(k),
            old(self).spec_contains(key@) ==> r == Some(old(self).spec_value(key@))
                && final(self).spec_len() == old(self).spec_len(),
            !old(self).spec_contains(key@) ==> r is None && final(self).entries@ == old(
                self,
            ).entries@.push((key, value)),
    {
        match self.find_index(&key) {
            Some(i) => {
                let prev = self.entries[i].1;
                self.entries[i] = (key, value);
                proof {
                    lemma_unique_index(*old(self), *self, i as int);
                }
                Some(prev)
            },
            None => {
                self.entries.push((key, value));
                proof {
                    lemma_push_fresh(*old(self), *self, key@, value);
                }
                None
            },
        }
    }

    /// Read the entry under `key` as an instance of the type tagged `tag`.
    /// Returns `Ok(None)` if the key is absent, and an error if the entry
    /// exists but its tag does not match `tag`.
    pub fn get(&self, key: &String, tag: u64) -> (r: Result<Option<&Instance>, Error>)
        requires
            self.wf(),
        ensures
            !self.spec_contains(key@) ==> (r matches Ok(o) && o is None),
            self.spec_contains(key@) && self.spec_value(key@).tag == tag ==> (r matches Ok(o)
                && o matches Some(v) && *v == self.spec_value(key@)),
            self.spec_contains(key@) && self.spec_value(key@).tag != tag ==> r is Err,
    {
        match self.find_index(key) {
            Some(i) => {
                proof {
                    lemma_found_is_index(*self, key@, i as int);
                }
                let v = &self.entries[i].1;
                if v.tag == tag {
                    Ok(Some(v))
                } else {
                    Err(Error)
                }
            },
            None => Ok(None),
        }
    }

    /// Same as [`Self::get`] but hands back a copy that the caller may
    /// modify and store again; the registry itself is left unchanged.
    pub fn get_mut(&mut self, key: &String, tag: u64) -> (r: Result<Option<Instance>, Error>)
        requires
            old(self).wf(),
        ensures
            *final(self) == *old(self),
            !old(self).spec_contains(key@) ==> (r matches Ok(o) && o is None),
            old(self).spec_contains(key@) && old(self).spec_value(key@).tag == tag ==> (r
                matches Ok(o) && o == Some(old(self).spec_value(key@))),
            old(self).spec_contains(key@) && old(self).spec_value(key@).tag != tag ==> r is Err,
    {
        match self.get(key, tag) {
            Ok(Some(v)) => Ok(Some(*v)),
            Ok(None) => Ok(None),
            Err(e) => Err(e),
        }
    }
}

impl Default for Type {
    /// An empty registry.
    fn default() -> (r: Type)
        ensures
            r.wf(),
            r.spec_len() == 0,
    {
        Type { entries: Vec::new() }
    }
}

/// Replacing the entry at `i` with one under the same key keeps the key set,
/// the values under all other keys, and well-formedness.
proof fn lemma_unique_index(pre: Type, post: Type, i: int)
    requires
        pre.wf(),
        0 <= i < pre.entries@.len(),
        post.entries@.len() == pre.entries@.len(),
        post.entries@[i].0@ == pre.entries@[i].0@,
        forall|k: int| 0 <= k < pre.entries@.len() && k != i ==> post.entries@[k] == pre.entries@[k],
    ensures
        post.wf(),
        pre.spec_contains(pre.entries@[i].0@),
        pre.spec_value(pre.entries@[i].0@) == pre.entries@[i].1,
        post.spec_contains(pre.entries@[i].0@),
        post.spec_value(pre.entries@[i].0@) == post.entries@[i].1,
        forall|k: Seq<char>|
            k != pre.entries@[i].0@ ==> #[trigger] post.spec_contains(k) == pre.spec_contains(k),
        forall|k: Seq<char>|
            k != pre.entries@[i].0@ && pre.spec_contains(k) ==> #[trigger] post.spec_value(k)
                == pre.spec_value(k),
{
    let key = pre.entries@[i].0@;
    assert forall|a: int, b: int|
        0 <= a < b < post.entries@.len() implies (post.entries@[a]).0@ != (post.entries@[b]).0@ by {
        assert(pre.entries@[a].0@ != pre.entries@[b].0@);
    }
    assert(pre.spec_value(key) == pre.entries@[i].1) by {
        let j = pre.spec_index(key);
        assert(0 <= j < pre.entries@.len() && pre.entries@[j].0@ == key);
        if j != i {
            assert(false);
        }
    }
    assert(post.spec_value(key) == post.entries@[i].1) by {
        let j = post.spec_index(key);
        assert(0 <= j < post.entries@.len() && post.entries@[j].0@ == key);
        if j != i {
            assert(false);
        }
    }
    assert forall|k: Seq<char>|
        k != key implies #[trigger] post.spec_contains(k) == pre.spec_contains(k) by {
        if pre.spec_contains(k) {
            let j = pre.spec_index(k);
            assert(post.entries@[j].0@ == k);
        }
        if post.spec_contains(k) {
            let j = post.spec_index(k);
            assert(pre.entries@[j].0@ == k);
        }
    }
    assert forall|k: Seq<char>|
        k != key && pre.spec_contains(k) implies #[trigger] post.spec_value(k) == pre.spec_value(
        k,
    ) by {
        let j = pre.spec_index(k);
        assert(post.entries@[j].0@ == k);
        let j2 = post.spec_index(k);
        assert(post.entries@[j2].0@ == k);
        if j2 != j {
            assert(pre.entries@[j2].0@ == k);
            assert(false);
        }
    }
}

/// Appending an entry under a fresh key keeps well-formedness, the values
/// under all existing keys, and stores the new value under the new key.
proof fn lemma_push_fresh(pre: Type, post: Type, key: Seq<char>, value: Instance)
    requires
        pre.wf(),
        !pre.spec_contains(key),
        post.entries@.len() == pre.entries@.len() + 1,
        post.entries@[pre.entries@.len() as int].0@ == key,
        post.entries@[pre.entries@.len() as int].1 == value,
        forall|k: int| 0 <= k < pre.entries@.len() ==> post.entries@[k] == pre.entries@[k],
    ensures
        post.wf(),
        post.spec_contains(key),
        post.spec_value(key) == value,
        forall|k: Seq<char>|
            k != key ==> #[trigger] post.spec_contains(k) == pre.spec_contains(k),
        forall|k: Seq<char>|
            k != key && pre.spec_contains(k) ==> #[trigger] post.spec_value(k) == pre.spec_value(k),
{
    let n = pre.entries@.len() as int;
    assert forall|a: int, b: int|
        0 <= a < b < post.entries@.len() implies (post.entries@[a]).0@ != (post.entries@[b]).0@ by {
        if b < n {
            assert(pre.entries@[a].0@ != pre.entries@[b].0@);
        } else {
            assert(post.entries@[b].0@ == key);
            assert(post.entries@[a].0@ == pre.entries@[a].0@);
        }
    }
    assert(post.entries@[n].0@ == key);
    assert(post.spec_value(key) == value) by {
        let j = post.spec_index(key);
        assert(0 <= j < post.entries@.len() && post.entries@[j].0@ == key);
        if j != n {
            assert(pre.entries@[j].0@ == key);
            assert(false);
        }
    }
    assert forall|k: Seq<char>|
        k != key implies #[trigger] post.spec_contains(k) == pre.spec_contains(k) by {
        if pre.spec_contains(k) {
            let j = pre.spec_index(k);
            assert(post.entries@[j].0@ == k);
        }
        if post.spec_contains(k) {
            let j = post.spec_index(k);
            assert(j != n);
            assert(pre.entries@[j].0@ == k);
        }
    }
    assert forall|k: Seq<char>|
        k != key && pre.spec_contains(k) implies #[trigger] post.spec_value(k) == pre.spec_value(
        k,
    ) by {
        let j = pre.spec_index(k);
        assert(post.entries@[j].0@ == k);
        let j2 = post.spec_index(k);
        assert(post.entries@[j2].0@ == k);
        if j2 != j {
            assert(j2 != n);
            assert(pre.entries@[j2].0@ == k);
            assert(false);
        }
    }
}

/// A successful scan lands on the unique index holding `key`.
proof fn lemma_found_is_index(t: Type, key: Seq<char>, i: int)
    requires
        t.wf(),
        0 <= i < t.entries@.len(),
        t.entries@[i].0@ == key,
    ensures
        t.spec_contains(key),
        t.spec_index(key) == i,
        t.spec_value(key) == t.entries@[i].1,
{
    let j = t.spec_index(key);
    assert(0 <= j < t.entries@.len() && t.entries@[j].0@ == key);
    if j != i {
        assert(false);
    }
}

} // verus!
