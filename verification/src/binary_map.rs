//! A small map from byte strings to byte strings with a canonical encoding:
//! its entries are kept, and written, in the order of their keys.

use vstd::prelude::*;
use crate::bytes::clone_bytes;
use crate::crypto::{hash, sha256};
use crate::wire::{
    bytes_field, lemma_read_bytes_field, lemma_read_field_consumes, read_field, read_field_at,
    write_bytes_field, DecodeError, WIRE_LENGTH_DELIMITED,
};

verus! {

/// Whether `a` and `b` agree on their first `k` bytes and `a` comes first
/// at position `k`: it ends there and `b` goes on, or its byte is smaller.
pub open spec fn precedes_at(a: Seq<u8>, b: Seq<u8>, k: int) -> bool {
    &&& 0 <= k <= a.len()
    &&& k < b.len()
    &&& forall|j: int| 0 <= j < k ==> a[j] == b[j]
    &&& k < a.len() ==> a[k] < b[k]
}

/// The lexicographic order on byte strings: `a` comes strictly before `b`.
pub open spec fn bytes_lt(a: Seq<u8>, b: Seq<u8>) -> bool {
    exists|k: int| precedes_at(a, b, k)
}

/// No byte string comes before itself.
pub proof fn lemma_bytes_lt_irreflexive(a: Seq<u8>)
    ensures
        !bytes_lt(a, a),
{
}

/// The order is transitive.
pub proof fn lemma_bytes_lt_transitive(a: Seq<u8>, b: Seq<u8>, c: Seq<u8>)
    requires
        bytes_lt(a, b),
        bytes_lt(b, c),
    ensures
        bytes_lt(a, c),
{
    let k1 = choose|k: int| precedes_at(a, b, k);
    let k2 = choose|k: int| precedes_at(b, c, k);
    if k1 <= k2 {
        assert(precedes_at(a, c, k1));
    } else {
        assert(precedes_at(a, c, k2));
    }
}

/// Of two different byte strings one comes before the other.
pub proof fn lemma_bytes_lt_total(a: Seq<u8>, b: Seq<u8>)
    ensures
        a == b || bytes_lt(a, b) || bytes_lt(b, a),
    decreases a.len() + b.len(),
{
    if a != b {
        let k = first_difference(a, b, 0);
        lemma_first_difference(a, b, 0);
        if k < a.len() && k < b.len() {
            if a[k] < b[k] {
                assert(precedes_at(a, b, k));
            } else {
                assert(precedes_at(b, a, k));
            }
        } else if k == a.len() && k < b.len() {
            assert(precedes_at(a, b, k));
        } else if k == b.len() && k < a.len() {
            assert(precedes_at(b, a, k));
        } else {
            assert(a =~= b);
        }
    }
}

/// The first position from `from` on at which `a` and `b` differ or one ends.
pub open spec fn first_difference(a: Seq<u8>, b: Seq<u8>, from: int) -> int
    decreases a.len() - from,
{
    if 0 <= from < a.len() && from < b.len() && a[from] == b[from] {
        first_difference(a, b, from + 1)
    } else {
        from
    }
}

/// Up to their first difference two byte strings agree.
pub proof fn lemma_first_difference(a: Seq<u8>, b: Seq<u8>, from: int)
    requires
        0 <= from <= a.len(),
        from <= b.len(),
    ensures
        from <= first_difference(a, b, from) <= a.len(),
        first_difference(a, b, from) <= b.len(),
        forall|j: int| from <= j < first_difference(a, b, from) ==> a[j] == b[j],
        first_difference(a, b, from) < a.len() && first_difference(a, b, from) < b.len()
            ==> a[first_difference(a, b, from)] != b[first_difference(a, b, from)],
    decreases a.len() - from,
{
    if from < a.len() && from < b.len() && a[from] == b[from] {
        lemma_first_difference(a, b, from + 1);
    }
}

/// How one byte string stands to another in the lexicographic order.
#[derive(Clone, Copy, Debug, PartialEq, Eq, Structural)]
pub enum Order {
    Before,
    Same,
    After,
}

/// Compares two byte strings lexicographically.
pub fn compare_bytes(a: &Vec<u8>, b: &Vec<u8>) -> (order: Order)
    ensures
        order == Order::Before <==> bytes_lt(a@, b@),
        order == Order::Same <==> a@ == b@,
        order == Order::After <==> bytes_lt(b@, a@),
{
    proof {
        lemma_bytes_lt_irreflexive(a@);
        if bytes_lt(a@, b@) && bytes_lt(b@, a@) {
            lemma_bytes_lt_transitive(a@, b@, a@);
        }
    }
    let mut i: usize = 0;
    while i < a.len() && i < b.len()
        invariant
            i <= a@.len(),
            i <= b@.len(),
            forall|j: int| 0 <= j < i ==> a@[j] == b@[j],
        decreases a.len() - i,
    {
        if a[i] < b[i] {
            assert(precedes_at(a@, b@, i as int));
            return Order::Before;
        }
        if a[i] > b[i] {
            assert(precedes_at(b@, a@, i as int));
            return Order::After;
        }
        i = i + 1;
    }
    if i < b.len() {
        assert(precedes_at(a@, b@, i as int));
        Order::Before
    } else if i < a.len() {
        assert(precedes_at(b@, a@, i as int));
        Order::After
    } else {
        assert(a@ =~= b@);
        Order::Same
    }
}


/// A key with its value, as byte strings.
pub type Pair = (Seq<u8>, Seq<u8>);

/// Whether the keys of the pairs strictly increase.
pub open spec fn sorted(pairs: Seq<Pair>) -> bool {
    forall|i: int, j: int| 0 <= i < j < pairs.len() ==> bytes_lt(pairs[i].0, pairs[j].0)
}

/// Whether `key` is the key of one of the pairs.
pub open spec fn has_key(pairs: Seq<Pair>, key: Seq<u8>) -> bool {
    exists|i: int| 0 <= i < pairs.len() && pairs[i].0 == key
}

/// A position at which `key` stands among the pairs.
pub open spec fn index_of(pairs: Seq<Pair>, key: Seq<u8>) -> int {
    choose|i: int| 0 <= i < pairs.len() && pairs[i].0 == key
}

/// The map that holds each pair: a key stands for the value of a pair
/// that has it.
pub open spec fn pairs_to_map(pairs: Seq<Pair>) -> Map<Seq<u8>, Seq<u8>> {
    Map::new(|key: Seq<u8>| has_key(pairs, key), |key: Seq<u8>| pairs[index_of(pairs, key)].1)
}

/// The map made by inserting the pairs one after the other: of two pairs
/// with one key the later one stays.
pub open spec fn collect_pairs(pairs: Seq<Pair>) -> Map<Seq<u8>, Seq<u8>>
    decreases pairs.len(),
{
    if pairs.len() == 0 {
        Map::empty()
    } else {
        collect_pairs(pairs.drop_last()).insert(pairs.last().0, pairs.last().1)
    }
}

/// In a sorted list each key stands once, so the map of the list holds
/// each pair as it is.
pub proof fn lemma_sorted_lookup(pairs: Seq<Pair>, i: int)
    requires
        sorted(pairs),
        0 <= i < pairs.len(),
    ensures
        pairs_to_map(pairs).contains_key(pairs[i].0),
        pairs_to_map(pairs)[pairs[i].0] == pairs[i].1,
{
    let key = pairs[i].0;
    assert(has_key(pairs, key));
    let j = index_of(pairs, key);
    if j < i {
        lemma_bytes_lt_irreflexive(key);
        assert(bytes_lt(pairs[j].0, pairs[i].0));
    } else if i < j {
        lemma_bytes_lt_irreflexive(key);
        assert(bytes_lt(pairs[i].0, pairs[j].0));
    }
}

/// Collecting a sorted list gives the map of the list.
pub proof fn lemma_collect_sorted(pairs: Seq<Pair>)
    requires
        sorted(pairs),
    ensures
        collect_pairs(pairs) == pairs_to_map(pairs),
    decreases pairs.len(),
{
    if pairs.len() == 0 {
        assert(collect_pairs(pairs) =~= pairs_to_map(pairs));
    } else {
        let front = pairs.drop_last();
        let last = pairs.last();
        assert(sorted(front));
        lemma_collect_sorted(front);
        let left = pairs_to_map(front).insert(last.0, last.1);
        let right = pairs_to_map(pairs);
        assert forall|key: Seq<u8>| left.contains_key(key) <==> right.contains_key(key) by {
            if has_key(front, key) {
                let i = choose|i: int| 0 <= i < front.len() && front[i].0 == key;
                assert(pairs[i].0 == key);
            }
            if has_key(pairs, key) && key != last.0 {
                let i = choose|i: int| 0 <= i < pairs.len() && pairs[i].0 == key;
                assert(front[i].0 == key);
            }
            if key == last.0 {
                assert(pairs[pairs.len() - 1].0 == key);
            }
        }
        assert forall|key: Seq<u8>| left.contains_key(key) implies left[key] == right[key] by {
            let i = choose|i: int| 0 <= i < pairs.len() && pairs[i].0 == key;
            lemma_sorted_lookup(pairs, i);
            if key != last.0 {
                let j = choose|j: int| 0 <= j < front.len() && front[j].0 == key;
                lemma_sorted_lookup(front, j);
                lemma_sorted_lookup(pairs, j);
            } else {
                lemma_sorted_lookup(pairs, pairs.len() - 1);
            }
        }
        assert(left =~= right);
    }
}

/// Without its first pair a sorted list holds the map without the first key.
pub proof fn lemma_sorted_tail(pairs: Seq<Pair>)
    requires
        sorted(pairs),
        pairs.len() > 0,
    ensures
        sorted(pairs.skip(1)),
        pairs_to_map(pairs.skip(1)) == pairs_to_map(pairs).remove(pairs[0].0),
{
    let tail = pairs.skip(1);
    let first = pairs[0].0;
    assert forall|i: int, j: int| 0 <= i < j < tail.len() implies bytes_lt(
        tail[i].0,
        tail[j].0,
    ) by {
        assert(bytes_lt(pairs[i + 1].0, pairs[j + 1].0));
    }
    let left = pairs_to_map(tail);
    let right = pairs_to_map(pairs).remove(first);
    assert forall|key: Seq<u8>| left.contains_key(key) <==> right.contains_key(key) by {
        if has_key(tail, key) {
            let i = index_of(tail, key);
            assert(pairs[i + 1].0 == key);
            assert(bytes_lt(pairs[0].0, pairs[i + 1].0));
            lemma_bytes_lt_irreflexive(key);
        }
        if has_key(pairs, key) && key != first {
            let i = index_of(pairs, key);
            assert(tail[i - 1].0 == key);
        }
    }
    assert forall|key: Seq<u8>| left.contains_key(key) implies left[key] == right[key] by {
        let i = index_of(tail, key);
        lemma_sorted_lookup(tail, i);
        lemma_sorted_lookup(pairs, i + 1);
    }
    assert(left =~= right);
}

/// Two sorted lists that hold the same map are the same list: a map has
/// one list of entries, and so one encoding.
pub proof fn lemma_sorted_unique(a: Seq<Pair>, b: Seq<Pair>)
    requires
        sorted(a),
        sorted(b),
        pairs_to_map(a) == pairs_to_map(b),
    ensures
        a == b,
    decreases a.len(),
{
    if a.len() == 0 {
        if b.len() > 0 {
            lemma_sorted_lookup(b, 0);
            assert(has_key(a, b[0].0));
        }
        assert(a =~= b);
    } else {
        lemma_sorted_lookup(a, 0);
        assert(has_key(b, a[0].0));
        lemma_sorted_lookup(b, 0);
        assert(has_key(a, b[0].0));
        let ka = a[0].0;
        let kb = b[0].0;
        lemma_bytes_lt_total(ka, kb);
        lemma_bytes_lt_irreflexive(ka);
        lemma_bytes_lt_irreflexive(kb);
        if bytes_lt(ka, kb) {
            let j = index_of(b, ka);
            if j > 0 {
                assert(bytes_lt(b[0].0, b[j].0));
                lemma_bytes_lt_transitive(ka, kb, ka);
            }
        }
        if bytes_lt(kb, ka) {
            let j = index_of(a, kb);
            if j > 0 {
                assert(bytes_lt(a[0].0, a[j].0));
                lemma_bytes_lt_transitive(kb, ka, kb);
            }
        }
        assert(ka == kb);
        assert(a[0].1 == b[0].1);
        lemma_sorted_tail(a);
        lemma_sorted_tail(b);
        lemma_sorted_unique(a.skip(1), b.skip(1));
        assert(a =~= seq![a[0]] + a.skip(1));
        assert(b =~= seq![b[0]] + b.skip(1));
    }
}

/// A key with its value.
#[derive(Debug)]
pub struct KeyValue {
    pub key: Vec<u8>,
    pub value: Vec<u8>,
}

impl Clone for KeyValue {
    fn clone(&self) -> (copy: KeyValue)
        ensures
            copy.key@ == self.key@,
            copy.value@ == self.value@,
    {
        KeyValue { key: clone_bytes(&self.key), value: clone_bytes(&self.value) }
    }
}

/// The pairs that a list of entries holds.
pub open spec fn entry_pairs(entries: Seq<KeyValue>) -> Seq<Pair> {
    Seq::new(entries.len(), |i: int| (entries[i].key@, entries[i].value@))
}

/// A map from byte strings to byte strings whose entries are kept in the
/// order of their keys.
#[derive(Debug)]
pub struct BinaryMap {
    entries: Vec<KeyValue>,
}

impl View for BinaryMap {
    type V = Map<Seq<u8>, Seq<u8>>;

    closed spec fn view(&self) -> Map<Seq<u8>, Seq<u8>> {
        pairs_to_map(entry_pairs(self.entries@))
    }
}

impl Clone for BinaryMap {
    fn clone(&self) -> (copy: BinaryMap)
        ensures
            copy@ == self@,
            copy.pairs() == self.pairs(),
    {
        proof {
            use_type_invariant(self);
        }
        let entries = self.entries();
        BinaryMap { entries }
    }
}

impl Default for BinaryMap {
    fn default() -> (map: BinaryMap)
        ensures
            map@ == Map::<Seq<u8>, Seq<u8>>::empty(),
            map.pairs().len() == 0,
    {
        BinaryMap::new()
    }
}

impl BinaryMap {
    #[verifier::type_invariant]
    spec fn well_formed(self) -> bool {
        sorted(entry_pairs(self.entries@))
    }

    /// The entries of the map, in the order of their keys.
    pub closed spec fn pairs(&self) -> Seq<Pair> {
        entry_pairs(self.entries@)
    }

    /// The empty map.
    pub fn new() -> (map: BinaryMap)
        ensures
            map@ == Map::<Seq<u8>, Seq<u8>>::empty(),
            map.pairs().len() == 0,
    {
        let map = BinaryMap { entries: Vec::new() };
        assert(map@ =~= Map::<Seq<u8>, Seq<u8>>::empty());
        map
    }

    /// The number of entries.
    pub fn len(&self) -> (len: usize)
        ensures
            len == self.pairs().len(),
    {
        self.entries.len()
    }

    /// The entries in the order of their keys. The keys strictly increase,
    /// and the map is the map of these entries.
    pub fn entries(&self) -> (entries: Vec<KeyValue>)
        ensures
            entry_pairs(entries@) == self.pairs(),
            sorted(self.pairs()),
            self@ == pairs_to_map(self.pairs()),
    {
        proof {
            use_type_invariant(self);
        }
        let mut out: Vec<KeyValue> = Vec::new();
        let mut i: usize = 0;
        while i < self.entries.len()
            invariant
                i <= self.entries@.len(),
                out@.len() == i,
                forall|j: int|
                    0 <= j < i ==> out@[j].key@ == self.entries@[j].key@ && out@[j].value@
                        == self.entries@[j].value@,
            decreases self.entries.len() - i,
        {
            out.push(self.entries[i].clone());
            i = i + 1;
        }
        assert(entry_pairs(out@) =~= entry_pairs(self.entries@));
        out
    }

    /// The first position whose key does not come before `key`.
    fn position(&self, key: &Vec<u8>) -> (at: (usize, bool))
        ensures
            at.0 <= self.entries@.len(),
            forall|j: int| 0 <= j < at.0 ==> bytes_lt(self.entries@[j].key@, key@),
            at.1 ==> at.0 < self.entries@.len() && self.entries@[at.0 as int].key@ == key@,
            !at.1 ==> forall|j: int|
                at.0 <= j < self.entries@.len() ==> bytes_lt(key@, self.entries@[j].key@),
            at.1 <==> has_key(self.pairs(), key@),
    {
        proof {
            use_type_invariant(self);
        }
        let ghost pairs = entry_pairs(self.entries@);
        let mut p: usize = 0;
        while p < self.entries.len()
            invariant
                p <= self.entries@.len(),
                pairs == entry_pairs(self.entries@),
                sorted(pairs),
                forall|j: int| 0 <= j < p ==> bytes_lt(self.entries@[j].key@, key@),
            decreases self.entries.len() - p,
        {
            match compare_bytes(&self.entries[p].key, key) {
                Order::Before => {},
                Order::Same => {
                    assert(pairs[p as int].0 == key@);
                    return (p, true);
                },
                Order::After => {
                    assert forall|j: int| p <= j < self.entries@.len() implies bytes_lt(
                        key@,
                        self.entries@[j].key@,
                    ) by {
                        if p < j {
                            assert(bytes_lt(pairs[p as int].0, pairs[j].0));
                            lemma_bytes_lt_transitive(
                                key@,
                                self.entries@[p as int].key@,
                                self.entries@[j].key@,
                            );
                        }
                    }
                    assert(!has_key(pairs, key@)) by {
                        if has_key(pairs, key@) {
                            let i = choose|i: int| 0 <= i < pairs.len() && pairs[i].0 == key@;
                            lemma_bytes_lt_irreflexive(key@);
                            assert(pairs[i].0 == self.entries@[i].key@);
                        }
                    }
                    return (p, false);
                },
            }
            p = p + 1;
        }
        assert(!has_key(pairs, key@)) by {
            if has_key(pairs, key@) {
                let i = choose|i: int| 0 <= i < pairs.len() && pairs[i].0 == key@;
                lemma_bytes_lt_irreflexive(key@);
                assert(pairs[i].0 == self.entries@[i].key@);
            }
        }
        (p, false)
    }

    /// The value of `key`, if the map has it.
    pub fn get(&self, key: &Vec<u8>) -> (value: Option<Vec<u8>>)
        ensures
            value is Some <==> self@.contains_key(key@),
            value matches Some(v) ==> v@ == self@[key@],
    {
        proof {
            use_type_invariant(self);
        }
        let (p, found) = self.position(key);
        if found {
            proof {
                lemma_sorted_lookup(entry_pairs(self.entries@), p as int);
            }
            Some(clone_bytes(&self.entries[p].value))
        } else {
            None
        }
    }

    /// Whether the map has `key`.
    pub fn contains_key(&self, key: &Vec<u8>) -> (found: bool)
        ensures
            found == self@.contains_key(key@),
    {
        self.position(key).1
    }

    /// Sets the value of `key`; the value that it had, if any, is replaced.
    pub fn insert(&mut self, key: Vec<u8>, value: Vec<u8>)
        ensures
            final(self)@ == old(self)@.insert(key@, value@),
            final(self).pairs().len() == old(self).pairs().len() + (if old(self)@.contains_key(
                key@,
            ) {
                0nat
            } else {
                1nat
            }),
    {
        proof {
            use_type_invariant(&*self);
        }
        let (p, found) = self.position(&key);
        let ghost before = entry_pairs(self.entries@);
        let ghost k = key@;
        let ghost v = value@;
        let mut entries: Vec<KeyValue> = Vec::new();
        let mut i: usize = 0;
        while i < p
            invariant
                i <= p <= self.entries@.len(),
                entries@.len() == i,
                forall|j: int| 0 <= j < i ==> entries@[j].key@ == self.entries@[j].key@,
                forall|j: int| 0 <= j < i ==> entries@[j].value@ == self.entries@[j].value@,
            decreases p - i,
        {
            entries.push(self.entries[i].clone());
            i = i + 1;
        }
        entries.push(KeyValue { key, value });
        let skipped: usize = if found {
            1
        } else {
            0
        };
        let total = self.entries.len();
        assert(p + skipped <= total);
        let mut i: usize = p + skipped;
        while i < self.entries.len()
            invariant
                p + skipped <= i <= self.entries@.len(),
                entries@.len() == i + 1 - skipped,
                forall|j: int| 0 <= j < p ==> entries@[j].key@ == self.entries@[j].key@,
                forall|j: int| 0 <= j < p ==> entries@[j].value@ == self.entries@[j].value@,
                entries@[p as int].key@ == k,
                entries@[p as int].value@ == v,
                forall|j: int|
                    p + skipped <= j < i ==> entries@[j + 1 - skipped].key@
                        == self.entries@[j].key@,
                forall|j: int|
                    p + skipped <= j < i ==> entries@[j + 1 - skipped].value@
                        == self.entries@[j].value@,
            decreases self.entries.len() - i,
        {
            entries.push(self.entries[i].clone());
            i = i + 1;
        }
        let ghost after = entry_pairs(entries@);
        if found {
            assert(after =~= before.update(p as int, (k, v)));
            assert(sorted(after)) by {
                assert forall|i: int, j: int| 0 <= i < j < after.len() implies bytes_lt(
                    after[i].0,
                    after[j].0,
                ) by {
                    assert(bytes_lt(before[i].0, before[j].0));
                }
            }
            assert(pairs_to_map(after) =~= pairs_to_map(before).insert(k, v)) by {
                assert forall|q: Seq<u8>| has_key(after, q) <==> (q == k || has_key(
                    before,
                    q,
                )) by {
                    if has_key(after, q) {
                        let i = choose|i: int| 0 <= i < after.len() && after[i].0 == q;
                        assert(before[i].0 == q);
                    }
                    if has_key(before, q) {
                        let i = choose|i: int| 0 <= i < before.len() && before[i].0 == q;
                        assert(after[i].0 == q);
                    }
                    if q == k {
                        assert(after[p as int].0 == q);
                    }
                }
                assert forall|q: Seq<u8>| has_key(after, q) implies pairs_to_map(after)[q]
                    == pairs_to_map(before).insert(k, v)[q] by {
                    let i = choose|i: int| 0 <= i < after.len() && after[i].0 == q;
                    lemma_sorted_lookup(after, i);
                    if q != k {
                        lemma_sorted_lookup(before, i);
                    } else {
                        lemma_sorted_lookup(after, p as int);
                    }
                }
            }
        } else {
            assert(after =~= before.insert(p as int, (k, v)));
            assert(sorted(after)) by {
                assert forall|i: int, j: int| 0 <= i < j < after.len() implies bytes_lt(
                    after[i].0,
                    after[j].0,
                ) by {
                    if j < p {
                        assert(bytes_lt(before[i].0, before[j].0));
                    } else if j == p {
                        assert(before[i].0 == old(self).entries@[i].key@);
                    } else if i < p {
                        assert(bytes_lt(before[i].0, before[j - 1].0));
                    } else if i == p {
                        assert(before[j - 1].0 == old(self).entries@[j - 1].key@);
                    } else {
                        assert(bytes_lt(before[i - 1].0, before[j - 1].0));
                    }
                }
            }
            assert(pairs_to_map(after) =~= pairs_to_map(before).insert(k, v)) by {
                assert forall|q: Seq<u8>| has_key(after, q) <==> (q == k || has_key(
                    before,
                    q,
                )) by {
                    if has_key(after, q) && q != k {
                        let i = choose|i: int| 0 <= i < after.len() && after[i].0 == q;
                        if i < p {
                            assert(before[i].0 == q);
                        } else {
                            assert(before[i - 1].0 == q);
                        }
                    }
                    if has_key(before, q) {
                        let i = choose|i: int| 0 <= i < before.len() && before[i].0 == q;
                        if i < p {
                            assert(after[i].0 == q);
                        } else {
                            assert(after[i + 1].0 == q);
                        }
                    }
                    if q == k {
                        assert(after[p as int].0 == q);
                    }
                }
                assert forall|q: Seq<u8>| has_key(after, q) implies pairs_to_map(after)[q]
                    == pairs_to_map(before).insert(k, v)[q] by {
                    let i = choose|i: int| 0 <= i < after.len() && after[i].0 == q;
                    lemma_sorted_lookup(after, i);
                    if q != k {
                        if i < p {
                            lemma_sorted_lookup(before, i);
                        } else {
                            lemma_sorted_lookup(before, i - 1);
                        }
                    } else {
                        lemma_sorted_lookup(after, p as int);
                    }
                }
            }
        }
        *self = BinaryMap { entries };
    }

    /// The entries as the records of the wire format, in the order of their
    /// keys.
    pub fn to_pb(&self) -> (entries: Vec<KeyValue>)
        ensures
            entry_pairs(entries@) == self.pairs(),
            sorted(self.pairs()),
            self@ == pairs_to_map(self.pairs()),
    {
        self.entries()
    }

    /// Collects the records into a map; of two records with one key the
    /// later one stays.
    pub fn from_pb(entries: Vec<KeyValue>) -> (map: BinaryMap)
        ensures
            map@ == collect_pairs(entry_pairs(entries@)),
    {
        let ghost pairs = entry_pairs(entries@);
        let mut map = BinaryMap::new();
        let mut i: usize = 0;
        while i < entries.len()
            invariant
                i <= entries@.len(),
                pairs == entry_pairs(entries@),
                map@ == collect_pairs(pairs.take(i as int)),
            decreases entries.len() - i,
        {
            map.insert(clone_bytes(&entries[i].key), clone_bytes(&entries[i].value));
            proof {
                assert(pairs.take(i + 1).drop_last() =~= pairs.take(i as int));
                assert(pairs.take(i + 1).last() == pairs[i as int]);
            }
            i = i + 1;
        }
        assert(pairs.take(entries@.len() as int) =~= pairs);
        map
    }

    /// The encoding of the map: one record for each entry, in the order of
    /// the keys. Reading it back gives the map.
    pub fn to_bytes(&self) -> (bytes: Vec<u8>)
        ensures
            bytes@ == encode_pairs(self.pairs()),
            decode_map(bytes@) == Ok::<Map<Seq<u8>, Seq<u8>>, DecodeError>(self@),
    {
        proof {
            use_type_invariant(self);
        }
        let ghost pairs = entry_pairs(self.entries@);
        let mut out: Vec<u8> = Vec::new();
        let mut i: usize = 0;
        while i < self.entries.len()
            invariant
                i <= self.entries@.len(),
                pairs == entry_pairs(self.entries@),
                out@ == encode_pairs(pairs.take(i as int)),
                forall|j: int|
                    0 <= j < i ==> key_value_record(pairs[j].0, pairs[j].1).len() <= u64::MAX,
            decreases self.entries.len() - i,
        {
            let mut record: Vec<u8> = Vec::new();
            if self.entries[i].key.len() > 0 {
                write_bytes_field(&mut record, 1, &self.entries[i].key);
            }
            if self.entries[i].value.len() > 0 {
                write_bytes_field(&mut record, 2, &self.entries[i].value);
            }
            assert(record@ =~= key_value_record(pairs[i as int].0, pairs[i as int].1));
            let record_len = record.len();
            assert(key_value_record(pairs[i as int].0, pairs[i as int].1).len() == record_len);
            write_bytes_field(&mut out, 1, &record);
            proof {
                assert(pairs.take(i + 1).drop_last() =~= pairs.take(i as int));
                assert(pairs.take(i + 1).last() == pairs[i as int]);
            }
            i = i + 1;
        }
        proof {
            assert(pairs.take(self.entries@.len() as int) =~= pairs);
            assert forall|j: int| 0 <= j < pairs.len() implies fits_wire(pairs[j]) by {
                assert(pairs[j].0 == self.entries@[j].key@);
                assert(pairs[j].1 == self.entries@[j].value@);
            }
            lemma_decode_encoded(pairs, Seq::empty(), Seq::empty());
            assert(encode_pairs(pairs) + Seq::<u8>::empty() =~= encode_pairs(pairs));
            assert(Seq::<Pair>::empty() + pairs =~= pairs);
            lemma_collect_sorted(pairs);
        }
        out
    }

    /// Reads a map from its encoding. The records are collected as they
    /// come; fields that the format does not know are passed over.
    pub fn from_bytes(bytes: &Vec<u8>) -> (read: Result<BinaryMap, DecodeError>)
        ensures
            match decode_map(bytes@) {
                Ok(map) => read matches Ok(m) && m@ == map,
                Err(e) => read matches Err(r) && r == e,
            },
    {
        let mut entries: Vec<KeyValue> = Vec::new();
        let mut pos: usize = 0;
        assert(bytes@.skip(0) =~= bytes@);
        assert(entry_pairs(entries@) =~= Seq::<Pair>::empty());
        while pos < bytes.len()
            invariant
                pos <= bytes@.len(),
                decode_pairs(bytes@, Seq::empty()) == decode_pairs(
                    bytes@.skip(pos as int),
                    entry_pairs(entries@),
                ),
            decreases bytes.len() - pos,
        {
            let field = match read_field_at(bytes, pos) {
                Ok(field) => field,
                Err(e) => {
                    return Err(e);
                },
            };
            if field.number == 1 {
                if field.wire_type != WIRE_LENGTH_DELIMITED {
                    return Err(DecodeError::UnexpectedWireType);
                }
                let ghost before = entry_pairs(entries@);
                match read_key_value(&field.payload) {
                    Ok(entry) => {
                        entries.push(entry);
                        assert(entry_pairs(entries@) =~= before.push(
                            (entry.key@, entry.value@),
                        ));
                    },
                    Err(e) => {
                        return Err(e);
                    },
                }
            }
            pos = field.next;
        }
        Ok(BinaryMap::from_pb(entries))
    }

    /// The content hash of the map: the hash of its encoding.
    pub fn object_hash(&self) -> (digest: crate::crypto::Hash)
        ensures
            digest@ == sha256(encode_pairs(self.pairs())),
    {
        hash(&self.to_bytes())
    }
}

/// The record of one entry: the key as field 1 and the value as field 2,
/// each left out where it is empty.
pub open spec fn key_value_record(key: Seq<u8>, value: Seq<u8>) -> Seq<u8> {
    (if key.len() == 0 {
        Seq::empty()
    } else {
        bytes_field(1, key)
    }) + (if value.len() == 0 {
        Seq::empty()
    } else {
        bytes_field(2, value)
    })
}

/// The encoding of a list of entries: each entry's record as field 1, one
/// after the other.
pub open spec fn encode_pairs(pairs: Seq<Pair>) -> Seq<u8>
    decreases pairs.len(),
{
    if pairs.len() == 0 {
        Seq::empty()
    } else {
        encode_pairs(pairs.drop_last()) + bytes_field(
            1,
            key_value_record(pairs.last().0, pairs.last().1),
        )
    }
}

/// Reads the record of one entry, starting from the key and the value
/// read so far: a later field replaces an earlier one, and fields with
/// other numbers are passed over.
pub open spec fn decode_key_value(bytes: Seq<u8>, key: Seq<u8>, value: Seq<u8>) -> Result<
    Pair,
    DecodeError,
>
    decreases bytes.len(),
{
    if bytes.len() == 0 {
        Ok((key, value))
    } else {
        match read_field(bytes) {
            Err(e) => Err(e),
            Ok(field) => {
                proof {
                    lemma_read_field_consumes(bytes);
                }
                if field.number == 1 || field.number == 2 {
                    if field.wire_type != WIRE_LENGTH_DELIMITED {
                        Err(DecodeError::UnexpectedWireType)
                    } else if field.number == 1 {
                        decode_key_value(field.rest, field.payload, value)
                    } else {
                        decode_key_value(field.rest, key, field.payload)
                    }
                } else {
                    decode_key_value(field.rest, key, value)
                }
            },
        }
    }
}

/// Reads the entries of an encoded map behind those read so far.
pub open spec fn decode_pairs(bytes: Seq<u8>, read: Seq<Pair>) -> Result<Seq<Pair>, DecodeError>
    decreases bytes.len(),
{
    if bytes.len() == 0 {
        Ok(read)
    } else {
        match read_field(bytes) {
            Err(e) => Err(e),
            Ok(field) => {
                proof {
                    lemma_read_field_consumes(bytes);
                }
                if field.number == 1 {
                    if field.wire_type != WIRE_LENGTH_DELIMITED {
                        Err(DecodeError::UnexpectedWireType)
                    } else {
                        match decode_key_value(field.payload, Seq::empty(), Seq::empty()) {
                            Err(e) => Err(e),
                            Ok(pair) => decode_pairs(field.rest, read.push(pair)),
                        }
                    }
                } else {
                    decode_pairs(field.rest, read)
                }
            },
        }
    }
}

/// Reads an encoded map: its entries, collected in their order.
pub open spec fn decode_map(bytes: Seq<u8>) -> Result<Map<Seq<u8>, Seq<u8>>, DecodeError> {
    match decode_pairs(bytes, Seq::empty()) {
        Ok(pairs) => Ok(collect_pairs(pairs)),
        Err(e) => Err(e),
    }
}

/// Whether the lengths of a pair and of its record fit the length field.
pub open spec fn fits_wire(pair: Pair) -> bool {
    &&& pair.0.len() <= u64::MAX
    &&& pair.1.len() <= u64::MAX
    &&& key_value_record(pair.0, pair.1).len() <= u64::MAX
}

/// Reading the record of an entry gives the entry back, whatever was read
/// before.
pub proof fn lemma_decode_key_value(pair: Pair, key: Seq<u8>, value: Seq<u8>)
    requires
        fits_wire(pair),
        pair.0.len() == 0 ==> key.len() == 0,
        pair.1.len() == 0 ==> value.len() == 0,
    ensures
        decode_key_value(key_value_record(pair.0, pair.1), key, value) == Ok::<Pair, DecodeError>(
            pair,
        ),
{
    let empty = Seq::<u8>::empty();
    let value_part = if pair.1.len() == 0 {
        empty
    } else {
        bytes_field(2, pair.1)
    };
    let key_now = if pair.0.len() == 0 {
        key
    } else {
        pair.0
    };
    assert(key_now =~= pair.0);
    assert(decode_key_value(value_part, key_now, value) == Ok::<Pair, DecodeError>(pair)) by {
        if pair.1.len() > 0 {
            lemma_read_bytes_field(2, pair.1, empty);
            assert(value_part + empty =~= value_part);
            assert(decode_key_value(empty, key_now, pair.1) == Ok::<Pair, DecodeError>(pair));
        } else {
            assert(pair.1 =~= value);
            assert(pair.0 =~= key_now);
        }
    }
    if pair.0.len() > 0 {
        lemma_read_bytes_field(1, pair.0, value_part);
    } else {
        assert(key_value_record(pair.0, pair.1) =~= value_part);
    }
}

/// Reading an encoded list of entries adds the list to what was read
/// before, and goes on with what stands behind it.
pub proof fn lemma_decode_encoded(pairs: Seq<Pair>, rest: Seq<u8>, read: Seq<Pair>)
    requires
        forall|j: int| 0 <= j < pairs.len() ==> fits_wire(#[trigger] pairs[j]),
    ensures
        decode_pairs(encode_pairs(pairs) + rest, read) == decode_pairs(rest, read + pairs),
    decreases pairs.len(),
{
    if pairs.len() == 0 {
        assert(encode_pairs(pairs) + rest =~= rest);
        assert(read + pairs =~= read);
    } else {
        let front = pairs.drop_last();
        let last = pairs.last();
        let record = key_value_record(last.0, last.1);
        let behind = bytes_field(1, record) + rest;
        assert(encode_pairs(pairs) + rest =~= encode_pairs(front) + behind);
        assert forall|j: int| 0 <= j < front.len() implies fits_wire(#[trigger] front[j]) by {
            assert(front[j] == pairs[j]);
        }
        lemma_decode_encoded(front, behind, read);
        assert(fits_wire(pairs[pairs.len() - 1]));
        lemma_read_bytes_field(1, record, rest);
        lemma_decode_key_value(last, Seq::empty(), Seq::empty());
        assert((read + front).push(last) =~= read + pairs);
        assert(behind.len() > 0);
    }
}

/// Reads the record of one entry.
pub fn read_key_value(bytes: &Vec<u8>) -> (read: Result<KeyValue, DecodeError>)
    ensures
        match decode_key_value(bytes@, Seq::empty(), Seq::empty()) {
            Ok(pair) => read matches Ok(entry) && entry.key@ == pair.0 && entry.value@
                == pair.1,
            Err(e) => read matches Err(r) && r == e,
        },
{
    let mut key: Vec<u8> = Vec::new();
    let mut value: Vec<u8> = Vec::new();
    let mut pos: usize = 0;
    assert(bytes@.skip(0) =~= bytes@);
    while pos < bytes.len()
        invariant
            pos <= bytes@.len(),
            decode_key_value(bytes@, Seq::empty(), Seq::empty()) == decode_key_value(
                bytes@.skip(pos as int),
                key@,
                value@,
            ),
        decreases bytes.len() - pos,
    {
        let field = match read_field_at(bytes, pos) {
            Ok(field) => field,
            Err(e) => {
                return Err(e);
            },
        };
        if field.number == 1 || field.number == 2 {
            if field.wire_type != WIRE_LENGTH_DELIMITED {
                return Err(DecodeError::UnexpectedWireType);
            }
            if field.number == 1 {
                key = field.payload;
            } else {
                value = field.payload;
            }
        }
        pos = field.next;
    }
    Ok(KeyValue { key, value })
}

} // verus!
