//! The method table a service publishes, and how a client finds its methods in it.

use vstd::prelude::*;

verus! {

/// The layout version of method tables; a table of another version is never read.
pub const VTABLE_ABI_VERSION: u32 = 1;

/// What identifies a method in a table: the hashes of its name and of its signature.
#[derive(Debug, Clone, Copy, PartialEq, Eq, Structural)]
pub struct MethodKey {
    pub name_hash: u64,
    pub sig_hash: u64,
}

/// The position of the first entry equal to `key`, if there is one.
pub open spec fn first_match(entries: Seq<MethodKey>, key: MethodKey) -> Option<nat>
    decreases entries.len(),
{
    if entries.len() == 0 {
        None
    } else {
        match first_match(entries.drop_last(), key) {
            Some(i) => Some(i),
            None => if entries.last() == key {
                Some((entries.len() - 1) as nat)
            } else {
                None
            },
        }
    }
}

/// `first_match` finds the earliest equal entry, and finds none only when no entry is equal.
pub proof fn lemma_first_match(entries: Seq<MethodKey>, key: MethodKey)
    ensures
        match first_match(entries, key) {
            Some(i) => i < entries.len() && entries[i as int] == key && forall|j: int|
                0 <= j < i ==> entries[j] != key,
            None => forall|j: int| 0 <= j < entries.len() ==> entries[j] != key,
        },
    decreases entries.len(),
{
    if entries.len() > 0 {
        lemma_first_match(entries.drop_last(), key);
        assert forall|j: int| 0 <= j < entries.len() - 1 implies entries[j]
            == entries.drop_last()[j] by {}
    }
}

/// Looks `key` up in a method table: the position of the first equal entry.
pub fn find_method(entries: &[MethodKey], key: MethodKey) -> (found: Option<usize>)
    ensures
        match found {
            Some(i) => first_match(entries@, key) == Some(i as nat),
            None => first_match(entries@, key) is None,
        },
        match found {
            Some(i) => i < entries@.len() && entries@[i as int] == key && forall|j: int|
                0 <= j < i ==> entries@[j] != key,
            None => forall|j: int| 0 <= j < entries@.len() ==> entries@[j] != key,
        },
{
    let n: usize = entries.len();
    let mut i: usize = 0;
    while i < n
        invariant
            n == entries@.len(),
            i <= n,
            first_match(entries@.take(i as int), key) is None,
        decreases n - i,
    {
        assert(entries@.take(i as int + 1).drop_last() =~= entries@.take(i as int));
        if entries[i] == key {
            assert(first_match(entries@.take(i as int + 1), key) == Some(i as nat));
            proof {
                lemma_first_match_prefix(entries@, key, i as int + 1);
                lemma_first_match(entries@, key);
            }
            return Some(i);
        }
        i = i + 1;
    }
    assert(entries@.take(n as int) =~= entries@);
    proof {
        lemma_first_match(entries@, key);
    }
    None
}

/// A match found in a prefix is the first match of the whole table.
proof fn lemma_first_match_prefix(entries: Seq<MethodKey>, key: MethodKey, n: int)
    requires
        0 <= n <= entries.len(),
        first_match(entries.take(n), key) is Some,
    ensures
        first_match(entries, key) == first_match(entries.take(n), key),
    decreases entries.len() - n,
{
    if n < entries.len() {
        assert(entries.take(n + 1).drop_last() =~= entries.take(n));
        lemma_first_match_prefix(entries, key, n + 1);
    } else {
        assert(entries.take(n) =~= entries);
    }
}

/// What resolving the methods `wanted` against a table of version `abi_version`
/// yields: nothing for a table of another version or when some method is
/// missing, and otherwise the position of each method's first entry.
pub open spec fn resolution(abi_version: u32, entries: Seq<MethodKey>, wanted: Seq<MethodKey>) -> Option<
    Seq<nat>,
> {
    if abi_version != VTABLE_ABI_VERSION {
        None
    } else if forall|k: int| 0 <= k < wanted.len() ==> #[trigger] first_match(entries, wanted[k]) is Some {
        Some(Seq::new(wanted.len(), |k: int| first_match(entries, wanted[k]).unwrap()))
    } else {
        None
    }
}

/// Whether some entry of a table equals `key`.
pub open spec fn has_entry(entries: Seq<MethodKey>, key: MethodKey) -> bool {
    exists|j: int| 0 <= j < entries.len() && entries[j] == key
}

/// Resolution succeeds on a table of the current version exactly when every
/// wanted method equals some entry, however many entries the table has, and
/// then gives for each wanted method the earliest entry equal to it.
pub proof fn law_resolution(abi_version: u32, entries: Seq<MethodKey>, wanted: Seq<MethodKey>)
    ensures
        abi_version != VTABLE_ABI_VERSION ==> resolution(abi_version, entries, wanted) is None,
        abi_version == VTABLE_ABI_VERSION ==> (resolution(abi_version, entries, wanted) is Some
            <==> forall|k: int|
            0 <= k < wanted.len() ==> has_entry(entries, #[trigger] wanted[k])),
        resolution(abi_version, entries, wanted) matches Some(r) ==> r.len() == wanted.len()
            && forall|k: int|
            0 <= k < wanted.len() ==> {
                &&& #[trigger] r[k] < entries.len()
                &&& entries[r[k] as int] == wanted[k]
                &&& forall|j: int| 0 <= j < r[k] ==> entries[j] != wanted[k]
            },
{
    assert forall|k: int| 0 <= k < wanted.len() implies {
        &&& (#[trigger] first_match(entries, wanted[k]) is Some <==> has_entry(entries, wanted[k]))
        &&& (first_match(entries, wanted[k]) matches Some(i) ==> {
            &&& i < entries.len()
            &&& entries[i as int] == wanted[k]
            &&& forall|j: int| 0 <= j < i ==> entries[j] != wanted[k]
        })
    } by {
        lemma_first_match(entries, wanted[k]);
        if first_match(entries, wanted[k]) is Some {
            assert(entries[first_match(entries, wanted[k]).unwrap() as int] == wanted[k]);
        }
    }
    if abi_version == VTABLE_ABI_VERSION {
        if forall|k: int|
            0 <= k < wanted.len() ==> has_entry(entries, #[trigger] wanted[k]) {
            assert forall|k: int| 0 <= k < wanted.len() implies #[trigger] first_match(
                entries,
                wanted[k],
            ) is Some by {
                assert(has_entry(entries, wanted[k]));
            }
        }
        if resolution(abi_version, entries, wanted) is Some {
            assert forall|k: int| 0 <= k < wanted.len() implies has_entry(entries, #[trigger] wanted[k]) by {
                assert(first_match(entries, wanted[k]) is Some);
            }
        }
    }
    if resolution(abi_version, entries, wanted) is Some {
        let r = resolution(abi_version, entries, wanted).unwrap();
        assert forall|k: int| 0 <= k < wanted.len() implies {
            &&& #[trigger] r[k] < entries.len()
            &&& entries[r[k] as int] == wanted[k]
            &&& forall|j: int| 0 <= j < r[k] ==> entries[j] != wanted[k]
        } by {
            assert(first_match(entries, wanted[k]) is Some);
            assert(r[k] == first_match(entries, wanted[k]).unwrap());
        }
    }
}

/// Resolves each of the methods `wanted` in a published table: the position
/// of its entry for each, or nothing when the table's version differs or any
/// method is missing.
pub fn resolve_methods(abi_version: u32, entries: &[MethodKey], wanted: &[MethodKey]) -> (found:
    Option<Vec<usize>>)
    ensures
        match found {
            Some(v) => resolution(abi_version, entries@, wanted@) == Some(
                v@.map_values(|i: usize| i as nat),
            ),
            None => resolution(abi_version, entries@, wanted@) is None,
        },
        abi_version != VTABLE_ABI_VERSION ==> found is None,
        abi_version == VTABLE_ABI_VERSION ==> (found is Some <==> forall|k: int|
            0 <= k < wanted@.len() ==> has_entry(entries@, #[trigger] wanted@[k])),
        match found {
            Some(v) => v@.len() == wanted@.len() && forall|k: int|
                0 <= k < wanted@.len() ==> {
                    &&& #[trigger] v@[k] < entries@.len()
                    &&& entries@[v@[k] as int] == wanted@[k]
                    &&& forall|j: int| 0 <= j < v@[k] ==> entries@[j] != wanted@[k]
                },
            None => true,
        },
{
    proof {
        law_resolution(abi_version, entries@, wanted@);
    }
    if abi_version != VTABLE_ABI_VERSION {
        return None;
    }
    let mut out: Vec<usize> = Vec::new();
    let n: usize = wanted.len();
    let mut k: usize = 0;
    while k < n
        invariant
            n == wanted@.len(),
            k <= n,
            out@.len() == k,
            forall|j: int| 0 <= j < k ==> first_match(entries@, wanted@[j]) == Some(
                #[trigger] out@[j] as nat,
            ),
        decreases n - k,
    {
        match find_method(entries, wanted[k]) {
            Some(i) => {
                out.push(i);
            },
            None => {
                assert(!(first_match(entries@, wanted@[k as int]) is Some));
                return None;
            },
        }
        k = k + 1;
    }
    assert forall|j: int| 0 <= j < wanted@.len() implies #[trigger] first_match(
        entries@,
        wanted@[j],
    ) is Some by {
        assert(first_match(entries@, wanted@[j]) == Some(out@[j] as nat));
    }
    assert(out@.map_values(|i: usize| i as nat) =~= Seq::new(
        wanted@.len(),
        |j: int| first_match(entries@, wanted@[j]).unwrap(),
    ));
    proof {
        let r = out@.map_values(|i: usize| i as nat);
        assert(resolution(abi_version, entries@, wanted@) == Some(r));
        assert forall|k: int| 0 <= k < wanted@.len() implies {
            &&& #[trigger] out@[k] < entries@.len()
            &&& entries@[out@[k] as int] == wanted@[k]
            &&& forall|j: int| 0 <= j < out@[k] ==> entries@[j] != wanted@[k]
        } by {
            assert(out@[k] as nat == r[k]);
            assert(r[k] < entries@.len());
        }
    }
    Some(out)
}

/// Whether no two entries of a table are equal.
pub open spec fn keys_distinct(keys: Seq<MethodKey>) -> bool {
    forall|i: int, j: int| 0 <= i < keys.len() && 0 <= j < keys.len() && i != j ==> keys[i] != keys[j]
}

/// A client that resolves a service's methods against the table the service
/// published finds every one of them, each at an entry with the same name and
/// signature hashes at or before its own position, and exactly at its own
/// position when no two methods share both hashes.
pub proof fn law_published_table_resolves(keys: Seq<MethodKey>)
    ensures
        resolution(VTABLE_ABI_VERSION, keys, keys) is Some,
        forall|k: int|
            0 <= k < keys.len() ==> {
                let at = #[trigger] resolution(VTABLE_ABI_VERSION, keys, keys).unwrap()[k];
                at <= k && keys[at as int] == keys[k]
            },
        keys_distinct(keys) ==> resolution(VTABLE_ABI_VERSION, keys, keys) == Some(
            Seq::new(keys.len(), |k: int| k as nat),
        ),
{
    assert forall|k: int| 0 <= k < keys.len() implies {
        &&& #[trigger] first_match(keys, keys[k]) is Some
        &&& first_match(keys, keys[k]).unwrap() <= k
        &&& keys[first_match(keys, keys[k]).unwrap() as int] == keys[k]
        &&& keys_distinct(keys) ==> first_match(keys, keys[k]) == Some(k as nat)
    } by {
        lemma_first_match(keys, keys[k]);
    }
    if keys_distinct(keys) {
        assert(resolution(VTABLE_ABI_VERSION, keys, keys).unwrap() =~= Seq::new(
            keys.len(),
            |k: int| k as nat,
        ));
    }
}

/// A table of another layout version is never read, whatever it holds.
pub proof fn law_other_abi_version_refused(abi_version: u32, entries: Seq<MethodKey>, wanted: Seq<MethodKey>)
    requires
        abi_version != VTABLE_ABI_VERSION,
    ensures
        resolution(abi_version, entries, wanted) is None,
{
}

} // verus!
