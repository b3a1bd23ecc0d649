//! The key-value mapping that a secrets file stands for, and the
//! reconciliation of two such mappings.
//!
//! A mapping keeps its entries in ascending order of their keys, so that
//! whatever is computed from it depends on the mapping alone and never on
//! the order in which it was filled.

use crate::keyorder::{
    ascending, compare_keys, key_lt, lemma_ascending_unique, lemma_key_lt_asymmetric,
    lemma_key_lt_irreflexive, lemma_key_lt_transitive, KeyOrder,
};
use vstd::prelude::*;

verus! {

/// The keys of a sequence of entries.
spec fn keys_of(entries: Seq<(String, String)>) -> Seq<Seq<char>> {
    Seq::new(entries.len(), |i: int| entries[i].0@)
}

/// The values of a sequence of entries.
spec fn values_of(entries: Seq<(String, String)>) -> Seq<Seq<char>> {
    Seq::new(entries.len(), |i: int| entries[i].1@)
}

/// The mapping that keys and the values beside them stand for.
spec fn map_of(keys: Seq<Seq<char>>, values: Seq<Seq<char>>) -> Map<
    Seq<char>,
    Seq<char>,
> {
    Map::new(|k: Seq<char>| keys.contains(k), |k: Seq<char>| values[keys.index_of(k)])
}

/// In ascending keys every key stands at one place only.
proof fn lemma_ascending_index(keys: Seq<Seq<char>>, i: int)
    requires
        ascending(keys),
        0 <= i < keys.len(),
    ensures
        keys.contains(keys[i]),
        keys.index_of(keys[i]) == i,
{
    let j = keys.index_of(keys[i]);
    assert(keys.contains(keys[i]));
    if j < i {
        assert(key_lt(keys[j], keys[i]));
        lemma_key_lt_irreflexive(keys[i]);
    } else if i < j {
        assert(key_lt(keys[i], keys[j]));
        lemma_key_lt_irreflexive(keys[i]);
    }
}

/// The value of the key at place `i` is the value at place `i`.
proof fn lemma_map_of_at(keys: Seq<Seq<char>>, values: Seq<Seq<char>>, i: int)
    requires
        ascending(keys),
        0 <= i < keys.len(),
    ensures
        map_of(keys, values).contains_key(keys[i]),
        map_of(keys, values)[keys[i]] == values[i],
{
    lemma_ascending_index(keys, i);
}

/// A mapping from keys to values, both of them strings.
#[derive(Debug)]
pub struct EnvMap {
    entries: Vec<(String, String)>,
}

impl View for EnvMap {
    type V = Map<Seq<char>, Seq<char>>;

    closed spec fn view(&self) -> Map<Seq<char>, Seq<char>> {
        map_of(keys_of(self.entries@), values_of(self.entries@))
    }
}

impl EnvMap {
    #[verifier::type_invariant]
    spec fn well_formed(&self) -> bool {
        ascending(keys_of(self.entries@))
    }

    /// The empty mapping.
    pub fn new() -> (m: EnvMap)
        ensures
            m@ == Map::<Seq<char>, Seq<char>>::empty(),
    {
        let m = EnvMap { entries: Vec::new() };
        assert(m@ =~= Map::<Seq<char>, Seq<char>>::empty());
        m
    }

    /// The number of keys.
    pub fn len(&self) -> (n: usize)
        ensures
            self@.dom().finite(),
            n == self@.dom().len(),
    {
        proof {
            use_type_invariant(self);
            let keys = keys_of(self.entries@);
            assert(keys.no_duplicates()) by {
                assert forall|i: int, j: int|
                    0 <= i < keys.len() && 0 <= j < keys.len() && i != j implies keys[i]
                    != keys[j] by {
                    if i < j {
                        lemma_key_lt_asymmetric(keys[i], keys[j]);
                    } else {
                        lemma_key_lt_asymmetric(keys[j], keys[i]);
                    }
                }
            }
            keys.unique_seq_to_set();
            assert(self@.dom() =~= keys.to_set());
        }
        self.entries.len()
    }

    /// Whether there is no key.
    pub fn is_empty(&self) -> (r: bool)
        ensures
            r == (self@ == Map::<Seq<char>, Seq<char>>::empty()),
    {
        proof {
            let keys = keys_of(self.entries@);
            if keys.len() == 0 {
                assert(self@ =~= Map::<Seq<char>, Seq<char>>::empty());
            } else {
                assert(keys.contains(keys[0]));
                assert(self@.contains_key(keys[0]));
            }
        }
        self.entries.len() == 0
    }

    /// The place of `key` among the entries, if it is there, and else the
    /// place at which it would have to be put.
    fn find(&self, key: &str) -> (r: (usize, bool))
        ensures
            r.0 <= self.entries@.len(),
            r.1 ==> r.0 < self.entries@.len() && keys_of(self.entries@)[r.0 as int] == key@,
            !r.1 ==> !self@.contains_key(key@),
            forall|i: int| 0 <= i < r.0 ==> key_lt(#[trigger] keys_of(self.entries@)[i], key@),
            forall|i: int|
                r.0 + (if r.1 {
                    1int
                } else {
                    0int
                }) <= i < self.entries@.len() ==> key_lt(
                    key@,
                    #[trigger] keys_of(self.entries@)[i],
                ),
    {
        proof {
            use_type_invariant(self);
        }
        let ghost keys = keys_of(self.entries@);
        let mut lo: usize = 0;
        let mut hi: usize = self.entries.len();
        while lo < hi
            invariant
                keys == keys_of(self.entries@),
                ascending(keys),
                lo <= hi <= self.entries@.len(),
                forall|i: int| 0 <= i < lo ==> key_lt(#[trigger] keys[i], key@),
                forall|i: int| hi <= i < keys.len() ==> key_lt(key@, #[trigger] keys[i]),
            decreases hi - lo,
        {
            let mid: usize = lo + (hi - lo) / 2;
            match compare_keys(self.entries[mid].0.as_str(), key) {
                KeyOrder::Less => {
                    assert forall|i: int| 0 <= i < mid + 1 implies key_lt(
                        #[trigger] keys[i],
                        key@,
                    ) by {
                        if i < mid {
                            assert(key_lt(keys[i], keys[mid as int]));
                            lemma_key_lt_transitive(keys[i], keys[mid as int], key@);
                        }
                    }
                    lo = mid + 1;
                },
                KeyOrder::Equal => {
                    assert forall|i: int| mid + 1 <= i < keys.len() implies key_lt(
                        key@,
                        #[trigger] keys[i],
                    ) by {
                        assert(key_lt(keys[mid as int], keys[i]));
                    }
                    assert forall|i: int| 0 <= i < mid implies key_lt(
                        #[trigger] keys[i],
                        key@,
                    ) by {
                        assert(key_lt(keys[i], keys[mid as int]));
                    }
                    return (mid, true);
                },
                KeyOrder::Greater => {
                    assert forall|i: int| mid <= i < keys.len() implies key_lt(
                        key@,
                        #[trigger] keys[i],
                    ) by {
                        if mid < i {
                            assert(key_lt(keys[mid as int], keys[i]));
                            lemma_key_lt_transitive(key@, keys[mid as int], keys[i]);
                        }
                    }
                    hi = mid;
                },
            }
        }
        proof {
            if keys.contains(key@) {
                let i = keys.index_of(key@);
                lemma_key_lt_irreflexive(key@);
                if i < lo {
                    assert(key_lt(keys[i], key@));
                } else {
                    assert(key_lt(key@, keys[i]));
                }
            }
        }
        (lo, false)
    }

    /// Whether `key` has a value.
    pub fn contains_key(&self, key: &str) -> (r: bool)
        ensures
            r == self@.contains_key(key@),
    {
        let (i, found) = self.find(key);
        proof {
            use_type_invariant(self);
            if found {
                lemma_map_of_at(keys_of(self.entries@), values_of(self.entries@), i as int);
            }
        }
        found
    }

    /// The value of `key`, if it has one.
    pub fn get(&self, key: &str) -> (r: Option<&String>)
        ensures
            r is Some <==> self@.contains_key(key@),
            r matches Some(v) ==> v@ == self@[key@],
    {
        let (i, found) = self.find(key);
        proof {
            use_type_invariant(self);
            if found {
                lemma_map_of_at(keys_of(self.entries@), values_of(self.entries@), i as int);
            }
        }
        if found {
            Some(&self.entries[i].1)
        } else {
            None
        }
    }

    /// The keys, in ascending order.
    pub fn keys(&self) -> (r: Vec<String>)
        ensures
            ascending(texts(r@)),
            forall|k: Seq<char>| #[trigger] texts(r@).contains(k) <==> self@.contains_key(k),
    {
        proof {
            use_type_invariant(self);
        }
        let ghost keys = keys_of(self.entries@);
        let mut out: Vec<String> = Vec::new();
        let n: usize = self.entries.len();
        let mut i: usize = 0;
        while i < n
            invariant
                i <= n == self.entries@.len(),
                keys == keys_of(self.entries@),
                texts(out@) == keys.take(i as int),
            decreases n - i,
        {
            let ghost before = texts(out@);
            out.push(self.entries[i].0.clone());
            assert(texts(out@) == before.push(keys[i as int]));
            assert(keys.take(i + 1) == keys.take(i as int).push(keys[i as int]));
            i += 1;
        }
        assert(keys.take(n as int) == keys);
        out
    }

    /// Gives `key` the value `value`, in place of the value it had, if any.
    pub fn insert(&mut self, key: String, value: String)
        ensures
            final(self)@ == old(self)@.insert(key@, value@),
    {
        let (i, found) = self.find(key.as_str());
        proof {
            use_type_invariant(&*self);
        }
        let ghost before = self.entries@;
        let ghost keys = keys_of(before);
        let ghost values = values_of(before);
        let ghost after = if found {
            before.update(i as int, (key, value))
        } else {
            before.insert(i as int, (key, value))
        };
        proof {
            let keys2 = keys_of(after);
            let values2 = values_of(after);
            if found {
                assert(keys2 =~= keys);
                assert forall|k: Seq<char>| #[trigger]
                    map_of(keys2, values2).contains_key(k) implies map_of(keys2, values2)[k]
                    == old(self)@.insert(key@, value@)[k] by {
                    let j = keys.index_of(k);
                    lemma_ascending_index(keys, i as int);
                    if k == key@ {
                        assert(values2[i as int] == value@);
                    } else {
                        assert(values2[j] == values[j]);
                    }
                }
                assert(map_of(keys2, values2) =~= old(self)@.insert(key@, value@));
            } else {
                assert forall|a: int, b: int| 0 <= a < b < keys2.len() implies key_lt(
                    #[trigger] keys2[a],
                    #[trigger] keys2[b],
                ) by {
                    if b < i {
                        assert(key_lt(keys[a], keys[b]));
                    } else if b == i {
                        assert(key_lt(keys[a], key@));
                    } else if a < i {
                        assert(key_lt(keys[a], keys[b - 1]));
                    } else if a == i {
                        assert(key_lt(key@, keys[b - 1]));
                    } else {
                        assert(key_lt(keys[a - 1], keys[b - 1]));
                    }
                }
                assert forall|k: Seq<char>|
                    keys2.contains(k) <==> (keys.contains(k) || k == key@) by {
                    if keys2.contains(k) {
                        let j = keys2.index_of(k);
                        if j < i {
                            assert(keys[j] == k);
                        } else if j > i {
                            assert(keys[j - 1] == k);
                        }
                    }
                    if keys.contains(k) {
                        let j = keys.index_of(k);
                        if j < i {
                            assert(keys2[j] == k);
                        } else {
                            assert(keys2[j + 1] == k);
                        }
                    }
                    if k == key@ {
                        assert(keys2[i as int] == k);
                    }
                }
                assert forall|k: Seq<char>| #[trigger]
                    map_of(keys2, values2).contains_key(k) implies map_of(keys2, values2)[k]
                    == old(self)@.insert(key@, value@)[k] by {
                    let j = keys2.index_of(k);
                    lemma_ascending_index(keys2, j);
                    if j < i {
                        lemma_ascending_index(keys, j);
                    } else if j > i {
                        lemma_ascending_index(keys, j - 1);
                    }
                }
                assert(map_of(keys2, values2) =~= old(self)@.insert(key@, value@));
            }
        }
        let mut entries: Vec<(String, String)> = Vec::new();
        core::mem::swap(&mut self.entries, &mut entries);
        if found {
            entries.set(i, (key, value));
        } else {
            entries.insert(i, (key, value));
        }
        assert(entries@ == after);
        self.entries = entries;
    }
}

/// The texts of a sequence of strings.
pub open spec fn texts(v: Seq<String>) -> Seq<Seq<char>> {
    Seq::new(v.len(), |i: int| v[i]@)
}

/// The texts of a sequence of changes: key, value in the reference, value
/// in the current mapping.
pub open spec fn triples(v: Seq<(String, String, String)>) -> Seq<
    (Seq<char>, Seq<char>, Seq<char>),
> {
    Seq::new(v.len(), |i: int| (v[i].0@, v[i].1@, v[i].2@))
}

/// The keys of a sequence of changes.
pub open spec fn changed_keys(changes: Seq<(Seq<char>, Seq<char>, Seq<char>)>) -> Seq<Seq<char>> {
    Seq::new(changes.len(), |i: int| changes[i].0)
}

/// `keys` lists, in ascending order, exactly the keys that `a` has and `b`
/// lacks.
pub open spec fn only_in(
    a: Map<Seq<char>, Seq<char>>,
    b: Map<Seq<char>, Seq<char>>,
    keys: Seq<Seq<char>>,
) -> bool {
    &&& ascending(keys)
    &&& forall|k: Seq<char>| #[trigger] keys.contains(k) <==> a.contains_key(k) && !b.contains_key(k)
}

/// Whether `c` is a change from `reference` to `current`: its key is in
/// both, with the value of `reference` second and the differing value of
/// `current` third.
pub open spec fn is_change(
    current: Map<Seq<char>, Seq<char>>,
    reference: Map<Seq<char>, Seq<char>>,
    c: (Seq<char>, Seq<char>, Seq<char>),
) -> bool {
    &&& current.contains_key(c.0)
    &&& reference.contains_key(c.0)
    &&& reference[c.0] == c.1
    &&& current[c.0] == c.2
    &&& c.1 != c.2
}

/// `changes` lists, in ascending order of the keys, exactly the changes
/// from `reference` to `current`.
pub open spec fn changed_between(
    current: Map<Seq<char>, Seq<char>>,
    reference: Map<Seq<char>, Seq<char>>,
    changes: Seq<(Seq<char>, Seq<char>, Seq<char>)>,
) -> bool {
    &&& ascending(changed_keys(changes))
    &&& forall|c: (Seq<char>, Seq<char>, Seq<char>)| #[trigger]
        changes.contains(c) <==> is_change(current, reference, c)
}

/// The three lists are the reconciliation of `current` against
/// `reference`: the keys that only `current` has, the keys that only
/// `reference` has, and the keys whose values differ, each list in
/// ascending order of its keys.
pub open spec fn is_reconciliation(
    current: Map<Seq<char>, Seq<char>>,
    reference: Map<Seq<char>, Seq<char>>,
    additions: Seq<Seq<char>>,
    removals: Seq<Seq<char>>,
    changes: Seq<(Seq<char>, Seq<char>, Seq<char>)>,
) -> bool {
    &&& only_in(current, reference, additions)
    &&& only_in(reference, current, removals)
    &&& changed_between(current, reference, changes)
}

/// The keys that `a` has and `b` lacks, in ascending order.
pub fn keys_only_in(a: &EnvMap, b: &EnvMap) -> (r: Vec<String>)
    ensures
        only_in(a@, b@, texts(r@)),
{
    proof {
        use_type_invariant(a);
    }
    let ghost keys = keys_of(a.entries@);
    let mut out: Vec<String> = Vec::new();
    let n: usize = a.entries.len();
    let mut i: usize = 0;
    while i < n
        invariant
            i <= n == a.entries@.len(),
            keys == keys_of(a.entries@),
            ascending(keys),
            ascending(texts(out@)),
            forall|j: int, p: int|
                0 <= j < out@.len() && i <= p < n ==> key_lt(
                    #[trigger] texts(out@)[j],
                    #[trigger] keys[p],
                ),
            forall|k: Seq<char>| #[trigger]
                texts(out@).contains(k) <==> keys.take(i as int).contains(k) && !b@.contains_key(k),
        decreases n - i,
    {
        let key = &a.entries[i].0;
        let ghost before = texts(out@);
        if !b.contains_key(key.as_str()) {
            out.push(key.clone());
            proof {
                let after = texts(out@);
                assert(after =~= before.push(keys[i as int]));
                assert forall|x: int, y: int| 0 <= x < y < after.len() implies key_lt(
                    #[trigger] after[x],
                    #[trigger] after[y],
                ) by {
                    if y < before.len() {
                        assert(key_lt(before[x], before[y]));
                    } else {
                        assert(key_lt(before[x], keys[i as int]));
                    }
                }
                assert forall|j: int, p: int|
                    0 <= j < after.len() && i + 1 <= p < n implies key_lt(
                    #[trigger] after[j],
                    #[trigger] keys[p],
                ) by {
                    if j < before.len() {
                        assert(key_lt(before[j], keys[p]));
                    } else {
                        assert(key_lt(keys[i as int], keys[p]));
                    }
                }
            }
        }
        proof {
            let after = texts(out@);
            assert(keys.take(i + 1) =~= keys.take(i as int).push(keys[i as int]));
            assert forall|k: Seq<char>| #[trigger]
                after.contains(k) <==> keys.take(i + 1).contains(k) && !b@.contains_key(k) by {
                if after.contains(k) {
                    let j = after.index_of(k);
                    if j < before.len() {
                        assert(before[j] == k);
                        assert(before.contains(k));
                        let p = keys.take(i as int).index_of(k);
                        assert(keys.take(i + 1)[p] == k);
                    } else {
                        assert(keys.take(i + 1)[i as int] == k);
                    }
                }
                if keys.take(i + 1).contains(k) && !b@.contains_key(k) {
                    let p = keys.take(i + 1).index_of(k);
                    if p < i {
                        assert(keys.take(i as int)[p] == k);
                        assert(before.contains(k));
                        let j = before.index_of(k);
                        assert(after[j] == k);
                    } else {
                        assert(after[after.len() - 1] == k);
                    }
                }
            }
        }
        i += 1;
    }
    proof {
        assert(keys.take(n as int) =~= keys);
    }
    out
}

/// The changes from `locked` to `current`, in ascending order of the keys:
/// each one holds a key that both mappings have, the value in `locked` and
/// the differing value in `current`.
pub fn changed_values(current: &EnvMap, locked: &EnvMap) -> (r: Vec<(String, String, String)>)
    ensures
        changed_between(current@, locked@, triples(r@)),
{
    proof {
        use_type_invariant(current);
    }
    let ghost keys = keys_of(current.entries@);
    let ghost values = values_of(current.entries@);
    let mut out: Vec<(String, String, String)> = Vec::new();
    let n: usize = current.entries.len();
    let mut i: usize = 0;
    while i < n
        invariant
            i <= n == current.entries@.len(),
            keys == keys_of(current.entries@),
            values == values_of(current.entries@),
            ascending(keys),
            ascending(changed_keys(triples(out@))),
            forall|j: int, p: int|
                0 <= j < out@.len() && i <= p < n ==> key_lt(
                    #[trigger] changed_keys(triples(out@))[j],
                    #[trigger] keys[p],
                ),
            forall|c: (Seq<char>, Seq<char>, Seq<char>)| #[trigger]
                triples(out@).contains(c) <==> keys.take(i as int).contains(c.0) && is_change(
                    current@,
                    locked@,
                    c,
                ),
        decreases n - i,
    {
        let key = &current.entries[i].0;
        let value = &current.entries[i].1;
        let ghost before = triples(out@);
        proof {
            lemma_map_of_at(keys, values, i as int);
        }
        let mut pushed = false;
        match locked.get(key.as_str()) {
            Some(old_value) => {
                if !(*old_value == *value) {
                    out.push((key.clone(), old_value.clone(), value.clone()));
                    pushed = true;
                }
            },
            None => {},
        }
        let ghost entry = (keys[i as int], locked@[keys[i as int]], values[i as int]);
        proof {
            let after = triples(out@);
            assert(pushed == is_change(current@, locked@, entry));
            if pushed {
                assert(after =~= before.push(entry));
                let bk = changed_keys(before);
                let ak = changed_keys(after);
                assert(ak =~= bk.push(keys[i as int]));
                assert forall|x: int, y: int| 0 <= x < y < ak.len() implies key_lt(
                    #[trigger] ak[x],
                    #[trigger] ak[y],
                ) by {
                    if y < bk.len() {
                        assert(key_lt(bk[x], bk[y]));
                    } else {
                        assert(key_lt(bk[x], keys[i as int]));
                    }
                }
                assert forall|j: int, p: int|
                    0 <= j < ak.len() && i + 1 <= p < n implies key_lt(
                    #[trigger] ak[j],
                    #[trigger] keys[p],
                ) by {
                    if j < bk.len() {
                        assert(key_lt(bk[j], keys[p]));
                    } else {
                        assert(key_lt(keys[i as int], keys[p]));
                    }
                }
            } else {
                assert(after =~= before);
            }
            assert(keys.take(i + 1) =~= keys.take(i as int).push(keys[i as int]));
            assert forall|c: (Seq<char>, Seq<char>, Seq<char>)| #[trigger]
                after.contains(c) <==> keys.take(i + 1).contains(c.0) && is_change(
                    current@,
                    locked@,
                    c,
                ) by {
                if after.contains(c) {
                    let j = after.index_of(c);
                    if j < before.len() {
                        assert(before[j] == c);
                        assert(before.contains(c));
                        let p = keys.take(i as int).index_of(c.0);
                        assert(keys.take(i + 1)[p] == c.0);
                    } else {
                        assert(c == entry);
                        assert(keys.take(i + 1)[i as int] == c.0);
                    }
                }
                if keys.take(i + 1).contains(c.0) && is_change(current@, locked@, c) {
                    let p = keys.take(i + 1).index_of(c.0);
                    if p < i {
                        assert(keys.take(i as int)[p] == c.0);
                        assert(before.contains(c));
                        let j = before.index_of(c);
                        assert(after[j] == c);
                    } else {
                        assert(c == entry);
                        assert(after[after.len() - 1] == c);
                    }
                }
            }
        }
        i += 1;
    }
    proof {
        assert(keys.take(n as int) =~= keys);
    }
    out
}

/// Reconciles `current` (the live plaintext) against `locked` (the
/// decrypted envelope): the keys that were added, the keys that were
/// removed, and the keys whose value changed, each with the value in
/// `locked` and the value in `current`. Every list ascends by key, so the
/// outcome depends on the two mappings alone. Identical mappings give three
/// empty lists.
pub fn get_changes(current: &EnvMap, locked: &EnvMap) -> (r: (
    Vec<String>,
    Vec<String>,
    Vec<(String, String, String)>,
))
    ensures
        is_reconciliation(current@, locked@, texts(r.0@), texts(r.1@), triples(r.2@)),
        current@ == locked@ ==> r.0@.len() == 0 && r.1@.len() == 0 && r.2@.len() == 0,
{
    let additions = keys_only_in(current, locked);
    let removals = keys_only_in(locked, current);
    let changes = changed_values(current, locked);
    proof {
        if current@ == locked@ {
            lemma_no_difference(
                current@,
                texts(additions@),
                texts(removals@),
                triples(changes@),
            );
        }
    }
    (additions, removals, changes)
}

/// A mapping reconciled against itself shows no difference.
pub proof fn lemma_no_difference(
    m: Map<Seq<char>, Seq<char>>,
    additions: Seq<Seq<char>>,
    removals: Seq<Seq<char>>,
    changes: Seq<(Seq<char>, Seq<char>, Seq<char>)>,
)
    requires
        is_reconciliation(m, m, additions, removals, changes),
    ensures
        additions.len() == 0,
        removals.len() == 0,
        changes.len() == 0,
{
    if additions.len() > 0 {
        assert(additions.contains(additions[0]));
    }
    if removals.len() > 0 {
        assert(removals.contains(removals[0]));
    }
    if changes.len() > 0 {
        assert(changes.contains(changes[0]));
    }
}

/// Two mappings have one reconciliation only: it depends on nothing but
/// the mappings.
pub proof fn lemma_reconciliation_unique(
    current: Map<Seq<char>, Seq<char>>,
    reference: Map<Seq<char>, Seq<char>>,
    first: (Seq<Seq<char>>, Seq<Seq<char>>, Seq<(Seq<char>, Seq<char>, Seq<char>)>),
    second: (Seq<Seq<char>>, Seq<Seq<char>>, Seq<(Seq<char>, Seq<char>, Seq<char>)>),
)
    requires
        is_reconciliation(current, reference, first.0, first.1, first.2),
        is_reconciliation(current, reference, second.0, second.1, second.2),
    ensures
        first == second,
{
    lemma_ascending_unique(first.0, second.0);
    lemma_ascending_unique(first.1, second.1);
    let a = changed_keys(first.2);
    let b = changed_keys(second.2);
    assert forall|k: Seq<char>| a.contains(k) <==> b.contains(k) by {
        if a.contains(k) {
            let i = a.index_of(k);
            assert(first.2.contains(first.2[i]));
            let c = first.2[i];
            assert(second.2.contains(c));
            let j = second.2.index_of(c);
            assert(b[j] == k);
        }
        if b.contains(k) {
            let i = b.index_of(k);
            assert(second.2.contains(second.2[i]));
            let c = second.2[i];
            assert(first.2.contains(c));
            let j = first.2.index_of(c);
            assert(a[j] == k);
        }
    }
    lemma_ascending_unique(a, b);
    assert forall|i: int| 0 <= i < first.2.len() implies first.2[i] == second.2[i] by {
        assert(a[i] == b[i]);
        assert(first.2.contains(first.2[i]));
        assert(second.2.contains(second.2[i]));
    }
    assert(first.2 =~= second.2);
}

} // verus!
