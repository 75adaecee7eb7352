//! Byte-ordered keys and a sorted key/value store.
//!
//! Module state is kept in stores whose keys are ordered by the lexicographic
//! order of their byte encoding, the order in which the runtime's storage
//! iterates keys.
use vstd::prelude::*;

verus! {

/// Result of comparing two keys.
#[derive(Clone, Copy, Debug, PartialEq, Eq)]
pub enum Order {
    Below,
    Same,
    Above,
}

/// Strict lexicographic order on byte strings (a proper prefix sorts first).
pub open spec fn bytes_lt(a: Seq<u8>, b: Seq<u8>) -> bool
    decreases a.len(),
{
    if a.len() == 0 {
        b.len() > 0
    } else if b.len() == 0 {
        false
    } else if a[0] != b[0] {
        a[0] < b[0]
    } else {
        bytes_lt(a.drop_first(), b.drop_first())
    }
}

pub proof fn lemma_bytes_lt_irreflexive(a: Seq<u8>)
    ensures
        !bytes_lt(a, a),
    decreases a.len(),
{
    if a.len() > 0 {
        lemma_bytes_lt_irreflexive(a.drop_first());
    }
}

pub proof fn lemma_bytes_lt_transitive(a: Seq<u8>, b: Seq<u8>, c: Seq<u8>)
    requires
        bytes_lt(a, b),
        bytes_lt(b, c),
    ensures
        bytes_lt(a, c),
    decreases a.len(),
{
    if a.len() > 0 && b.len() > 0 && c.len() > 0 {
        if a[0] == b[0] && b[0] == c[0] {
            lemma_bytes_lt_transitive(a.drop_first(), b.drop_first(), c.drop_first());
        }
    }
}

pub proof fn lemma_bytes_lt_total(a: Seq<u8>, b: Seq<u8>)
    ensures
        a =~= b || bytes_lt(a, b) || bytes_lt(b, a),
    decreases a.len(),
{
    if a.len() > 0 && b.len() > 0 && a[0] == b[0] {
        lemma_bytes_lt_total(a.drop_first(), b.drop_first());
        if a.drop_first() =~= b.drop_first() {
            assert(a =~= seq![a[0]] + a.drop_first());
            assert(b =~= seq![b[0]] + b.drop_first());
        }
    }
}

pub proof fn lemma_bytes_lt_asymmetric(a: Seq<u8>, b: Seq<u8>)
    requires
        bytes_lt(a, b),
    ensures
        !bytes_lt(b, a),
        a != b,
{
    if bytes_lt(b, a) {
        lemma_bytes_lt_transitive(a, b, a);
        lemma_bytes_lt_irreflexive(a);
    }
    if a == b {
        lemma_bytes_lt_irreflexive(a);
    }
}

/// Comparing after a common prefix of length `i` is comparing the rests.
proof fn lemma_bytes_lt_skip(a: Seq<u8>, b: Seq<u8>, i: int)
    requires
        0 <= i <= a.len(),
        i <= b.len(),
        a.subrange(0, i) =~= b.subrange(0, i),
    ensures
        bytes_lt(a, b) == bytes_lt(a.skip(i), b.skip(i)),
    decreases i,
{
    if i > 0 {
        assert(a[0] == a.subrange(0, i)[0]);
        assert(b[0] == b.subrange(0, i)[0]);
        assert(a.drop_first().subrange(0, i - 1) =~= b.drop_first().subrange(0, i - 1)) by {
            assert forall|j: int| 0 <= j < i - 1 implies a.drop_first()[j] == b.drop_first()[j] by {
                assert(a.subrange(0, i)[j + 1] == b.subrange(0, i)[j + 1]);
            }
        }
        lemma_bytes_lt_skip(a.drop_first(), b.drop_first(), i - 1);
        assert(a.drop_first().skip(i - 1) =~= a.skip(i));
        assert(b.drop_first().skip(i - 1) =~= b.skip(i));
    } else {
        assert(a.skip(0) =~= a);
        assert(b.skip(0) =~= b);
    }
}

/// Compares two byte strings in lexicographic order.
pub fn bytes_order(a: &[u8], b: &[u8]) -> (r: Order)
    ensures
        r == Order::Below <==> bytes_lt(a@, b@),
        r == Order::Same <==> a@ == b@,
        r == Order::Above <==> bytes_lt(b@, a@),
{
    let n = if a.len() < b.len() { a.len() } else { b.len() };
    let mut i: usize = 0;
    while i < n
        invariant
            n <= a@.len(),
            n <= b@.len(),
            n == a@.len() || n == b@.len(),
            0 <= i <= n,
            a@.subrange(0, i as int) =~= b@.subrange(0, i as int),
        decreases n - i,
    {
        if a[i] != b[i] {
            proof {
                lemma_bytes_lt_skip(a@, b@, i as int);
                lemma_bytes_lt_skip(b@, a@, i as int);
                assert(a@.skip(i as int)[0] == a@[i as int]);
                assert(b@.skip(i as int)[0] == b@[i as int]);
                if a@ == b@ {
                    assert(a@[i as int] == b@[i as int]);
                }
            }
            if a[i] < b[i] {
                return Order::Below;
            } else {
                return Order::Above;
            }
        }
        proof {
            assert(a@.subrange(0, i + 1) =~= a@.subrange(0, i as int).push(a@[i as int]));
            assert(b@.subrange(0, i + 1) =~= b@.subrange(0, i as int).push(b@[i as int]));
        }
        i = i + 1;
    }
    proof {
        lemma_bytes_lt_skip(a@, b@, i as int);
        lemma_bytes_lt_skip(b@, a@, i as int);
        assert(a@.skip(i as int).len() == a@.len() - i);
        assert(b@.skip(i as int).len() == b@.len() - i);
        if a@.len() == b@.len() {
            assert(a@ =~= a@.subrange(0, i as int));
            assert(b@ =~= b@.subrange(0, i as int));
        } else {
            assert(a@ != b@);
        }
    }
    if a.len() < b.len() {
        Order::Below
    } else if a.len() == b.len() {
        Order::Same
    } else {
        Order::Above
    }
}

/// A store key: ordered and identified by its byte encoding.
pub trait Key: Sized {
    /// The byte encoding of the key.
    spec fn key_bytes(&self) -> Seq<u8>;

    /// Compares two keys by their byte encodings.
    fn key_order(&self, other: &Self) -> (r: Order)
        ensures
            r == Order::Below <==> bytes_lt(self.key_bytes(), other.key_bytes()),
            r == Order::Same <==> self.key_bytes() == other.key_bytes(),
            r == Order::Above <==> bytes_lt(other.key_bytes(), self.key_bytes()),
    ;
}

/// The little-endian bytes of a `u32`.
pub open spec fn u32_le_bytes(x: u32) -> Seq<u8> {
    seq![
        (x % 256) as u8,
        ((x / 256) % 256) as u8,
        ((x / 65536) % 256) as u8,
        (x / 16777216) as u8,
    ]
}

fn u32_le_array(x: u32) -> (r: [u8; 4])
    ensures
        r@ == u32_le_bytes(x),
{
    let r = [(x % 256) as u8, ((x / 256) % 256) as u8, ((x / 65536) % 256) as u8, (x / 16777216) as u8];
    assert(r@ =~= u32_le_bytes(x));
    r
}

/// Integer keys are stored under their little-endian bytes.
impl Key for u32 {
    open spec fn key_bytes(&self) -> Seq<u8> {
        u32_le_bytes(*self)
    }

    fn key_order(&self, other: &Self) -> (r: Order) {
        let a = u32_le_array(*self);
        let b = u32_le_array(*other);
        bytes_order(a.as_slice(), b.as_slice())
    }
}

/// A store of values under keys, kept sorted by key in byte order.
#[derive(Debug)]
pub struct KvStore<K, V> {
    pub entries: Vec<(K, V)>,
}

/// Entries are strictly sorted by key bytes (so no key occurs twice).
pub open spec fn sorted_entries<K: Key, V>(e: Seq<(K, V)>) -> bool {
    forall|i: int, j: int|
        0 <= i < j < e.len() ==> #[trigger] bytes_lt(e[i].0.key_bytes(), e[j].0.key_bytes())
}

/// Whether some entry has key bytes `kb`.
pub open spec fn has_key<K: Key, V>(e: Seq<(K, V)>, kb: Seq<u8>) -> bool {
    exists|i: int| 0 <= i < e.len() && #[trigger] e[i].0.key_bytes() == kb
}

/// The position of an entry with key bytes `kb`, when there is one.
pub open spec fn key_index<K: Key, V>(e: Seq<(K, V)>, kb: Seq<u8>) -> int {
    choose|i: int| 0 <= i < e.len() && #[trigger] e[i].0.key_bytes() == kb
}

/// The value under key bytes `kb`, if any.
pub open spec fn lookup<K: Key, V>(e: Seq<(K, V)>, kb: Seq<u8>) -> Option<V> {
    if has_key(e, kb) {
        Some(e[key_index(e, kb)].1)
    } else {
        None
    }
}

/// In a sorted sequence, the entry at `i` is the one that `lookup` finds.
pub proof fn lemma_lookup_at<K: Key, V>(e: Seq<(K, V)>, i: int)
    requires
        sorted_entries(e),
        0 <= i < e.len(),
    ensures
        lookup(e, e[i].0.key_bytes()) == Some(e[i].1),
{
    let kb = e[i].0.key_bytes();
    assert(has_key(e, kb));
    let j = key_index(e, kb);
    if j < i {
        assert(bytes_lt(e[j].0.key_bytes(), e[i].0.key_bytes()));
        lemma_bytes_lt_irreflexive(kb);
    } else if j > i {
        assert(bytes_lt(e[i].0.key_bytes(), e[j].0.key_bytes()));
        lemma_bytes_lt_irreflexive(kb);
    }

}

/// Replacing the value of one entry keeps the order and changes the lookup
/// of its key only.
pub proof fn lemma_update_value_at<K: Key, V>(old_e: Seq<(K, V)>, i: int, x: V)
    requires
        sorted_entries(old_e),
        0 <= i < old_e.len(),
    ensures
        sorted_entries(old_e.update(i, (old_e[i].0, x))),
        forall|kb: Seq<u8>| #[trigger]
            lookup(old_e.update(i, (old_e[i].0, x)), kb) == if kb == old_e[i].0.key_bytes() {
                Some(x)
            } else {
                lookup(old_e, kb)
            },
{
    let e = old_e.update(i, (old_e[i].0, x));
    assert(sorted_entries(e)) by {
        assert forall|a: int, b: int| 0 <= a < b < e.len() implies #[trigger] bytes_lt(
            e[a].0.key_bytes(),
            e[b].0.key_bytes(),
        ) by {
            assert(bytes_lt(old_e[a].0.key_bytes(), old_e[b].0.key_bytes()));
        }
    }
    assert forall|kb: Seq<u8>| #[trigger]
        lookup(e, kb) == if kb == old_e[i].0.key_bytes() {
            Some(x)
        } else {
            lookup(old_e, kb)
        } by {
        if kb == old_e[i].0.key_bytes() {
            lemma_lookup_at(e, i);
        } else {
            if has_key(e, kb) {
                let j = key_index(e, kb);
                lemma_lookup_at(e, j);
                lemma_lookup_at(old_e, j);
            }
            if has_key(old_e, kb) {
                let j = key_index(old_e, kb);
                lemma_lookup_at(old_e, j);
                lemma_lookup_at(e, j);
            }
        }
    }
}

/// A prefix of sorted entries is sorted.
pub proof fn lemma_sorted_take<K: Key, V>(e: Seq<(K, V)>, i: int)
    requires
        sorted_entries(e),
        0 <= i <= e.len(),
    ensures
        sorted_entries(e.take(i)),
{
    let t = e.take(i);
    assert forall|a: int, b: int| 0 <= a < b < t.len() implies #[trigger] bytes_lt(
        t[a].0.key_bytes(),
        t[b].0.key_bytes(),
    ) by {
        assert(t[a] == e[a] && t[b] == e[b]);
    }
}

/// Looking up in one more entry of sorted entries finds that entry for its
/// key and what the shorter prefix finds otherwise.
pub proof fn lemma_lookup_take_next<K: Key, V>(e: Seq<(K, V)>, i: int, kb: Seq<u8>)
    requires
        sorted_entries(e),
        0 <= i < e.len(),
    ensures
        lookup(e.take(i + 1), kb) == if kb == e[i].0.key_bytes() {
            Some(e[i].1)
        } else {
            lookup(e.take(i), kb)
        },
{
    let t = e.take(i + 1);
    let p = e.take(i);
    lemma_sorted_take(e, i + 1);
    lemma_sorted_take(e, i);
    if kb == e[i].0.key_bytes() {
        assert(t[i] == e[i]);
        lemma_lookup_at(t, i);
    } else {
        if has_key(t, kb) {
            let j = key_index(t, kb);
            assert(t[j] == e[j]);
            assert(j != i);
            assert(p[j] == e[j]);
            lemma_lookup_at(t, j);
            lemma_lookup_at(p, j);
        }
        if has_key(p, kb) {
            let j = key_index(p, kb);
            assert(t[j] == e[j] && p[j] == e[j]);
            lemma_lookup_at(t, j);
            lemma_lookup_at(p, j);
        }
    }
}

impl<K: Key + Copy, V: Copy> KvStore<K, V> {
    /// A copy of a store of plain keys and values.
    pub fn duplicate(&self) -> (r: Self)
        ensures
            r.entries@ == self.entries@,
    {
        let mut entries: Vec<(K, V)> = Vec::new();
        let mut i: usize = 0;
        while i < self.entries.len()
            invariant
                0 <= i <= self.entries@.len(),
                entries@ =~= self.entries@.take(i as int),
            decreases self.entries@.len() - i,
        {
            let e = self.entries[i];
            entries.push(e);
            i = i + 1;
        }
        assert(entries@ =~= self.entries@);
        KvStore { entries }
    }
}

impl<K: Key, V> KvStore<K, V> {
    pub open spec fn wf(&self) -> bool {
        sorted_entries(self.entries@)
    }

    pub open spec fn get_spec(&self, kb: Seq<u8>) -> Option<V> {
        lookup(self.entries@, kb)
    }

    pub fn new() -> (r: Self)
        ensures
            r.wf(),
            r.entries@.len() == 0,
    {
        KvStore { entries: Vec::new() }
    }

    /// Finds the position of `k`: `Ok(i)` when entry `i` holds it, otherwise
    /// `Err(i)`, the position at which it would be inserted.
    pub fn find(&self, k: &K) -> (r: Result<usize, usize>)
        requires
            self.wf(),
        ensures
            match r {
                Ok(i) => i < self.entries@.len() && self.entries@[i as int].0.key_bytes()
                    == k.key_bytes(),
                Err(i) => i <= self.entries@.len() && (forall|j: int|
                    0 <= j < i ==> #[trigger] bytes_lt(
                        self.entries@[j].0.key_bytes(),
                        k.key_bytes(),
                    )) && (forall|j: int|
                    i <= j < self.entries@.len() ==> #[trigger] bytes_lt(
                        k.key_bytes(),
                        self.entries@[j].0.key_bytes(),
                    )),
            },
            r is Err ==> !has_key(self.entries@, k.key_bytes()),
    {
        let n = self.entries.len();
        let mut i: usize = 0;
        while i < n
            invariant
                self.wf(),
                n == self.entries@.len(),
                0 <= i <= n,
                forall|j: int|
                    0 <= j < i ==> #[trigger] bytes_lt(
                        self.entries@[j].0.key_bytes(),
                        k.key_bytes(),
                    ),
            decreases n - i,
        {
            match self.entries[i].0.key_order(k) {
                Order::Below => {},
                Order::Same => {
                    return Ok(i);
                },
                Order::Above => {
                    proof {
                        assert forall|j: int| i <= j < n implies #[trigger] bytes_lt(
                            k.key_bytes(),
                            self.entries@[j].0.key_bytes(),
                        ) by {
                            if j > i {
                                assert(bytes_lt(
                                    self.entries@[i as int].0.key_bytes(),
                                    self.entries@[j].0.key_bytes(),
                                ));
                                lemma_bytes_lt_transitive(
                                    k.key_bytes(),
                                    self.entries@[i as int].0.key_bytes(),
                                    self.entries@[j].0.key_bytes(),
                                );
                            }
                        }
                        assert forall|j: int|
                            0 <= j < self.entries@.len() implies #[trigger] self.entries@[j].0.key_bytes()
                            != k.key_bytes() by {
                            if j < i {
                                lemma_bytes_lt_asymmetric(
                                    self.entries@[j].0.key_bytes(),
                                    k.key_bytes(),
                                );
                            } else {
                                lemma_bytes_lt_asymmetric(
                                    k.key_bytes(),
                                    self.entries@[j].0.key_bytes(),
                                );
                            }
                        }
                    }
                    return Err(i);
                },
            }
            i = i + 1;
        }
        proof {
            assert forall|j: int|
                0 <= j < self.entries@.len() implies #[trigger] self.entries@[j].0.key_bytes()
                != k.key_bytes() by {
                lemma_bytes_lt_asymmetric(self.entries@[j].0.key_bytes(), k.key_bytes());
            }
        }
        Err(i)
    }

    /// The value stored under `k`, if any.
    pub fn get(&self, k: &K) -> (r: Option<&V>)
        requires
            self.wf(),
        ensures
            match r {
                Some(v) => self.get_spec(k.key_bytes()) == Some(*v),
                None => self.get_spec(k.key_bytes()) is None,
            },
    {
        match self.find(k) {
            Ok(i) => {
                proof {
                    lemma_lookup_at(self.entries@, i as int);
                }
                Some(&self.entries[i].1)
            },
            Err(_) => None,
        }
    }

    /// Stores `v` under `k`, replacing any value stored there before;
    /// returns the position of the entry.
    pub fn insert(&mut self, k: K, v: V) -> (r: usize)
        requires
            old(self).wf(),
        ensures
            final(self).wf(),
            r < final(self).entries@.len(),
            final(self).entries@[r as int].0.key_bytes() == k.key_bytes(),
            final(self).entries@[r as int].1 == v,
            has_key(old(self).entries@, k.key_bytes()) ==> exists|i: int|
                0 <= i < old(self).entries@.len() && old(self).entries@[i].0.key_bytes()
                    == k.key_bytes() && final(self).entries@ == old(self).entries@.update(i, (k, v)),
            !has_key(old(self).entries@, k.key_bytes()) ==> exists|i: int|
                0 <= i <= old(self).entries@.len() && final(self).entries@
                    == old(self).entries@.insert(i, (k, v)),
            forall|kb: Seq<u8>| #[trigger]
                final(self).get_spec(kb) == if kb == k.key_bytes() {
                    Some(v)
                } else {
                    old(self).get_spec(kb)
                },
    {
        let ghost kb0 = k.key_bytes();
        let ghost old_e = self.entries@;
        let pos = self.find(&k);
        match pos {
            Ok(i) => {
                self.entries.set(i, (k, v));
                assert(self.entries@[i as int].1 == v);
                proof {
                    let e = self.entries@;
                    assert(e =~= old_e.update(i as int, (k, v)));
                    assert(has_key(old_e, kb0));
                    assert(sorted_entries(e)) by {
                        assert forall|a: int, b: int| 0 <= a < b < e.len() implies #[trigger] bytes_lt(
                            e[a].0.key_bytes(),
                            e[b].0.key_bytes(),
                        ) by {
                            assert(bytes_lt(old_e[a].0.key_bytes(), old_e[b].0.key_bytes()));
                        }
                    }
                    assert forall|kb: Seq<u8>| #[trigger]
                        lookup(e, kb) == if kb == kb0 {
                            Some(v)
                        } else {
                            lookup(old_e, kb)
                        } by {
                        if kb == kb0 {
                            lemma_lookup_at(e, i as int);
                        } else {
                            assert(has_key(e, kb) == has_key(old_e, kb)) by {
                                if has_key(e, kb) {
                                    let j = choose|j: int| 0 <= j < e.len() && #[trigger] e[j].0.key_bytes() == kb;
                                    assert(old_e[j].0.key_bytes() == kb);
                                }
                                if has_key(old_e, kb) {
                                    let j = choose|j: int| 0 <= j < old_e.len() && #[trigger] old_e[j].0.key_bytes() == kb;
                                    assert(e[j].0.key_bytes() == kb);
                                }
                            }
                            if has_key(e, kb) {
                                let j = choose|j: int| 0 <= j < e.len() && #[trigger] e[j].0.key_bytes() == kb;
                                lemma_lookup_at(e, j);
                                lemma_lookup_at(old_e, j);
                            }
                        }
                    }
                }
                i
            },
            Err(i) => {
                self.entries.insert(i, (k, v));
                proof {
                    let e = self.entries@;
                    assert(e =~= old_e.insert(i as int, (k, v)));
                    assert(!has_key(old_e, kb0));
                    assert(sorted_entries(e)) by {
                        assert forall|a: int, b: int| 0 <= a < b < e.len() implies #[trigger] bytes_lt(
                            e[a].0.key_bytes(),
                            e[b].0.key_bytes(),
                        ) by {
                            if a < i && b < i {
                                assert(bytes_lt(old_e[a].0.key_bytes(), old_e[b].0.key_bytes()));
                            } else if a < i && b == i {
                            } else if a < i && b > i {
                                assert(bytes_lt(old_e[a].0.key_bytes(), old_e[b - 1].0.key_bytes()));
                            } else if a == i {
                                assert(e[b] == old_e[b - 1]);
                            } else {
                                assert(bytes_lt(old_e[a - 1].0.key_bytes(), old_e[b - 1].0.key_bytes()));
                            }
                        }
                    }
                    assert forall|kb: Seq<u8>| #[trigger]
                        lookup(e, kb) == if kb == kb0 {
                            Some(v)
                        } else {
                            lookup(old_e, kb)
                        } by {
                        if kb == kb0 {
                            lemma_lookup_at(e, i as int);
                        } else {
                            assert(has_key(e, kb) == has_key(old_e, kb)) by {
                                if has_key(e, kb) {
                                    let j = choose|j: int| 0 <= j < e.len() && #[trigger] e[j].0.key_bytes() == kb;
                                    if j < i {
                                        assert(old_e[j].0.key_bytes() == kb);
                                    } else if j > i {
                                        assert(old_e[j - 1].0.key_bytes() == kb);
                                    }
                                }
                                if has_key(old_e, kb) {
                                    let j = choose|j: int| 0 <= j < old_e.len() && #[trigger] old_e[j].0.key_bytes() == kb;
                                    if j < i {
                                        assert(e[j].0.key_bytes() == kb);
                                    } else {
                                        assert(e[j + 1].0.key_bytes() == kb);
                                    }
                                }
                            }
                            if has_key(old_e, kb) {
                                let j = choose|j: int| 0 <= j < old_e.len() && #[trigger] old_e[j].0.key_bytes() == kb;
                                lemma_lookup_at(old_e, j);
                                if j < i {
                                    lemma_lookup_at(e, j);
                                } else {
                                    lemma_lookup_at(e, j + 1);
                                }
                            }
                        }
                    }
                }
                i
            },
        }
    }

    /// Removes the value stored under `k`, returning it.
    pub fn remove(&mut self, k: &K) -> (r: Option<V>)
        requires
            old(self).wf(),
        ensures
            final(self).wf(),
            r == old(self).get_spec(k.key_bytes()),
            forall|kb: Seq<u8>| #[trigger]
                final(self).get_spec(kb) == if kb == k.key_bytes() {
                    None
                } else {
                    old(self).get_spec(kb)
                },
    {
        let ghost kb0 = k.key_bytes();
        let ghost old_e = self.entries@;
        match self.find(k) {
            Ok(i) => {
                proof {
                    lemma_lookup_at(old_e, i as int);
                }
                let (_, v) = self.entries.remove(i);
                proof {
                    let e = self.entries@;
                    assert(e =~= old_e.remove(i as int));
                    assert(sorted_entries(e)) by {
                        assert forall|a: int, b: int| 0 <= a < b < e.len() implies #[trigger] bytes_lt(
                            e[a].0.key_bytes(),
                            e[b].0.key_bytes(),
                        ) by {
                            if b < i {
                                assert(bytes_lt(old_e[a].0.key_bytes(), old_e[b].0.key_bytes()));
                            } else if a < i {
                                assert(bytes_lt(old_e[a].0.key_bytes(), old_e[b + 1].0.key_bytes()));
                            } else {
                                assert(bytes_lt(old_e[a + 1].0.key_bytes(), old_e[b + 1].0.key_bytes()));
                            }
                        }
                    }
                    assert forall|kb: Seq<u8>| #[trigger]
                        lookup(e, kb) == if kb == kb0 {
                            None
                        } else {
                            lookup(old_e, kb)
                        } by {
                        if kb == kb0 {
                            if has_key(e, kb) {
                                let j = choose|j: int| 0 <= j < e.len() && #[trigger] e[j].0.key_bytes() == kb;
                                if j < i {
                                    assert(bytes_lt(old_e[j].0.key_bytes(), old_e[i as int].0.key_bytes()));
                                } else {
                                    assert(bytes_lt(old_e[i as int].0.key_bytes(), old_e[j + 1].0.key_bytes()));
                                }
                                lemma_bytes_lt_irreflexive(kb);
                            }
                        } else {
                            assert(has_key(e, kb) == has_key(old_e, kb)) by {
                                if has_key(e, kb) {
                                    let j = choose|j: int| 0 <= j < e.len() && #[trigger] e[j].0.key_bytes() == kb;
                                    if j < i {
                                        assert(old_e[j].0.key_bytes() == kb);
                                    } else {
                                        assert(old_e[j + 1].0.key_bytes() == kb);
                                    }
                                }
                                if has_key(old_e, kb) {
                                    let j = choose|j: int| 0 <= j < old_e.len() && #[trigger] old_e[j].0.key_bytes() == kb;
                                    if j < i {
                                        assert(e[j].0.key_bytes() == kb);
                                    } else {
                                        assert(j != i);
                                        assert(e[j - 1].0.key_bytes() == kb);
                                    }
                                }
                            }
                            if has_key(old_e, kb) {
                                let j = choose|j: int| 0 <= j < old_e.len() && #[trigger] old_e[j].0.key_bytes() == kb;
                                lemma_lookup_at(old_e, j);
                                if j < i {
                                    lemma_lookup_at(e, j);
                                } else {
                                    lemma_lookup_at(e, j - 1);
                                }
                            }
                        }
                    }
                }
                Some(v)
            },
            Err(_) => {
                proof {
                    assert forall|kb: Seq<u8>| #[trigger]
                        lookup(old_e, kb) == if kb == kb0 {
                            None
                        } else {
                            lookup(old_e, kb)
                        } by {}
                }
                None
            },
        }
    }

    /// Stores `v` under `k` (as `insert`), returning the position of the entry.
    pub fn upsert(&mut self, k: K, v: V) -> (r: usize)
        requires
            old(self).wf(),
        ensures
            final(self).wf(),
            r < final(self).entries@.len(),
            final(self).entries@[r as int].0.key_bytes() == k.key_bytes(),
            final(self).entries@[r as int].1 == v,
            forall|kb: Seq<u8>| #[trigger]
                final(self).get_spec(kb) == if kb == k.key_bytes() {
                    Some(v)
                } else {
                    old(self).get_spec(kb)
                },
    {
        self.insert(k, v)
    }

    /// A mutable reference to the value of the entry at position `i`.
    pub fn value_at_mut(&mut self, i: usize) -> (r: &mut V)
        requires
            old(self).wf(),
            i < old(self).entries@.len(),
        ensures
            *r == old(self).entries@[i as int].1,
            final(self).entries@ == old(self).entries@.update(
                i as int,
                (old(self).entries@[i as int].0, *final(r)),
            ),
            final(self).wf(),
            forall|kb: Seq<u8>| #[trigger]
                final(self).get_spec(kb) == if kb == old(self).entries@[i as int].0.key_bytes() {
                    Some(*final(r))
                } else {
                    old(self).get_spec(kb)
                },
    {
        let ghost old_e = self.entries@;
        let r = &mut self.entries[i].1;
        proof {
            lemma_update_value_at(old_e, i as int, *final(r));
        }
        r
    }

    /// Removes the entry at position `i`, returning it.
    pub fn remove_at(&mut self, i: usize) -> (r: (K, V))
        requires
            old(self).wf(),
            i < old(self).entries@.len(),
        ensures
            final(self).wf(),
            final(self).entries@ == old(self).entries@.remove(i as int),
            r == old(self).entries@[i as int],
    {
        let ghost old_e = self.entries@;
        let r = self.entries.remove(i);
        proof {
            let e = self.entries@;
            assert forall|a: int, b: int| 0 <= a < b < e.len() implies #[trigger] bytes_lt(
                e[a].0.key_bytes(),
                e[b].0.key_bytes(),
            ) by {
                if b < i {
                    assert(bytes_lt(old_e[a].0.key_bytes(), old_e[b].0.key_bytes()));
                } else if a < i {
                    assert(bytes_lt(old_e[a].0.key_bytes(), old_e[b + 1].0.key_bytes()));
                } else {
                    assert(bytes_lt(old_e[a + 1].0.key_bytes(), old_e[b + 1].0.key_bytes()));
                }
            }
        }
        r
    }

    /// Inserts an entry at position `i`, where its key sorts.
    pub fn insert_at(&mut self, i: usize, k: K, v: V)
        requires
            old(self).wf(),
            i <= old(self).entries@.len(),
            i > 0 ==> bytes_lt(old(self).entries@[i - 1].0.key_bytes(), k.key_bytes()),
            i < old(self).entries@.len() ==> bytes_lt(
                k.key_bytes(),
                old(self).entries@[i as int].0.key_bytes(),
            ),
        ensures
            final(self).wf(),
            final(self).entries@ == old(self).entries@.insert(i as int, (k, v)),
    {
        let ghost old_e = self.entries@;
        self.entries.insert(i, (k, v));
        proof {
            let e = self.entries@;
            assert(e =~= old_e.insert(i as int, (k, v)));
            assert forall|a: int, b: int| 0 <= a < b < e.len() implies #[trigger] bytes_lt(
                e[a].0.key_bytes(),
                e[b].0.key_bytes(),
            ) by {
                if a < i && b < i {
                    assert(bytes_lt(old_e[a].0.key_bytes(), old_e[b].0.key_bytes()));
                } else if a < i && b == i {
                    if a < i - 1 {
                        assert(bytes_lt(old_e[a].0.key_bytes(), old_e[i - 1].0.key_bytes()));
                        lemma_bytes_lt_transitive(
                            old_e[a].0.key_bytes(),
                            old_e[i - 1].0.key_bytes(),
                            k.key_bytes(),
                        );
                    }
                } else if a < i && b > i {
                    assert(bytes_lt(old_e[a].0.key_bytes(), old_e[b - 1].0.key_bytes()));
                } else if a == i {
                    if b - 1 > i {
                        assert(bytes_lt(old_e[i as int].0.key_bytes(), old_e[b - 1].0.key_bytes()));
                        lemma_bytes_lt_transitive(
                            k.key_bytes(),
                            old_e[i as int].0.key_bytes(),
                            old_e[b - 1].0.key_bytes(),
                        );
                    }
                } else {
                    assert(bytes_lt(old_e[a - 1].0.key_bytes(), old_e[b - 1].0.key_bytes()));
                }
            }
        }
    }
}

} // verus!
