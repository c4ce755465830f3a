//! A write set: storage writes keyed by (account, key), kept in key order.
use vstd::prelude::*;

use crate::text::{bytes_eq, bytes_to_vec};
use crate::types::AccountAddress;

verus! {

/// `Some(bytes)` writes a value, `None` deletes it.
pub open spec fn opt_bytes(o: Option<Vec<u8>>) -> Option<Seq<u8>> {
    match o {
        Some(v) => Some(v@),
        None => None,
    }
}

/// Strict lexicographic order on byte strings; a proper prefix comes first.
pub open spec fn bytes_lt(a: Seq<u8>, b: Seq<u8>) -> bool
    decreases a.len(),
{
    if b.len() == 0 {
        false
    } else if a.len() == 0 {
        true
    } else if a[0] < b[0] {
        true
    } else if a[0] > b[0] {
        false
    } else {
        bytes_lt(a.drop_first(), b.drop_first())
    }
}

/// The order of storage keys: by account bytes, then by key bytes.
pub open spec fn key_lt(a1: AccountAddress, k1: Seq<u8>, a2: AccountAddress, k2: Seq<u8>) -> bool {
    bytes_lt(a1@, a2@) || (a1@ == a2@ && bytes_lt(k1, k2))
}

/// A write-set entry taken by value.
pub type EntryModel = (AccountAddress, Seq<u8>, Option<Seq<u8>>);

pub open spec fn entry_lt(e1: EntryModel, e2: EntryModel) -> bool {
    key_lt(e1.0, e1.1, e2.0, e2.1)
}

pub open spec fn same_key(e: EntryModel, a: AccountAddress, k: Seq<u8>) -> bool {
    e.0@ == a@ && e.1 == k
}

/// Entries strictly increasing by key.
pub open spec fn sorted(m: Seq<EntryModel>) -> bool {
    forall|i: int, j: int| 0 <= i < j < m.len() ==> entry_lt(#[trigger] m[i], #[trigger] m[j])
}

/// The value recorded for a key: `None` when the key has no entry.
pub open spec fn model_lookup(m: Seq<EntryModel>, a: AccountAddress, k: Seq<u8>) -> Option<
    Option<Seq<u8>>,
>
    decreases m.len(),
{
    if m.len() == 0 {
        None
    } else if same_key(m[0], a, k) {
        Some(m[0].2)
    } else {
        model_lookup(m.drop_first(), a, k)
    }
}

/// The entries after writing `v` at `(a, k)`: an existing entry for the key is replaced,
/// otherwise the entry goes before the first larger key.
pub open spec fn model_insert(
    m: Seq<EntryModel>,
    a: AccountAddress,
    k: Seq<u8>,
    v: Option<Seq<u8>>,
) -> Seq<EntryModel>
    decreases m.len(),
{
    if m.len() == 0 {
        seq![(a, k, v)]
    } else if same_key(m[0], a, k) {
        seq![(a, k, v)] + m.drop_first()
    } else if key_lt(a, k, m[0].0, m[0].1) {
        seq![(a, k, v)] + m
    } else {
        seq![m[0]] + model_insert(m.drop_first(), a, k, v)
    }
}

/// One entry of a write set.
#[derive(Debug, Eq, PartialEq)]
pub struct WriteEntry {
    pub account: AccountAddress,
    pub key: Vec<u8>,
    pub value: Option<Vec<u8>>,
}

impl WriteEntry {
    pub open spec fn model(&self) -> EntryModel {
        (self.account, self.key@, opt_bytes(self.value))
    }
}

/// Storage writes, one per (account, key), in key order.
#[derive(Debug, Eq, PartialEq)]
pub struct WriteSet {
    entries: Vec<WriteEntry>,
}

impl WriteSet {
    /// The entries, in key order.
    pub closed spec fn model(&self) -> Seq<EntryModel> {
        self.entries@.map_values(|e: WriteEntry| e.model())
    }

    #[verifier::type_invariant]
    closed spec fn wf(&self) -> bool {
        sorted(self.model())
    }

    pub fn new() -> (r: Self)
        ensures
            r.model() == Seq::<EntryModel>::empty(),
    {
        let r = WriteSet { entries: Vec::new() };
        assert(r.model() =~= Seq::<EntryModel>::empty());
        r
    }

    pub fn len(&self) -> (r: usize)
        ensures
            r == self.model().len(),
    {
        self.entries.len()
    }

    pub fn is_empty(&self) -> (r: bool)
        ensures
            r == (self.model().len() == 0),
    {
        self.entries.len() == 0
    }

    /// The entries, in key order.
    pub fn entries(&self) -> (r: &[WriteEntry])
        ensures
            r@.map_values(|e: WriteEntry| e.model()) == self.model(),
    {
        self.entries.as_slice()
    }

    /// Whether the set has an entry for the key.
    pub fn contains_key(&self, key: &(AccountAddress, Vec<u8>)) -> (r: bool)
        ensures
            r == model_lookup(self.model(), key.0, key.1@).is_some(),
    {
        self.get(key).is_some()
    }

    /// The write recorded for the key, if any.
    pub fn get(&self, key: &(AccountAddress, Vec<u8>)) -> (r: Option<&Option<Vec<u8>>>)
        ensures
            match r {
                Some(v) => model_lookup(self.model(), key.0, key.1@) == Some(opt_bytes(*v)),
                None => model_lookup(self.model(), key.0, key.1@) is None,
            },
    {
        let ghost m = self.model();
        assert(m.skip(0) =~= m);
        let mut i: usize = 0;
        while i < self.entries.len()
            invariant
                i <= self.entries@.len(),
                m == self.model(),
                m.len() == self.entries@.len(),
                model_lookup(m, key.0, key.1@) == model_lookup(m.skip(i as int), key.0, key.1@),
            decreases self.entries@.len() - i,
        {
            let e = &self.entries[i];
            proof {
                assert(m.skip(i as int)[0] == e.model());
                assert(m.skip(i as int).drop_first() =~= m.skip(i as int + 1));
            }
            if address_eq(&e.account, &key.0) && bytes_eq(e.key.as_slice(), key.1.as_slice()) {
                return Some(&e.value);
            }
            i += 1;
        }
        None
    }

    /// Records `value` for `(account, key)`, replacing an earlier write to the same key.
    pub fn insert(&mut self, account: AccountAddress, key: Vec<u8>, value: Option<Vec<u8>>)
        ensures
            final(self).model() == model_insert(old(self).model(), account, key@, opt_bytes(value)),
    {
        proof {
            use_type_invariant(&*self);
        }
        let ghost m = self.model();
        let ghost k = key@;
        let mut entries: Vec<WriteEntry> = Vec::new();
        std::mem::swap(&mut entries, &mut self.entries);
        assert(m == entries@.map_values(|e: WriteEntry| e.model()));
        let mut i: usize = 0;
        while i < entries.len()
            invariant
                i <= entries@.len(),
                m == entries@.map_values(|e: WriteEntry| e.model()),
                m == old(self).model(),
                k == key@,
                sorted(m),
                m.len() == entries@.len(),
                forall|j: int| 0 <= j < i ==> #[trigger] key_lt(m[j].0, m[j].1, account, k),
            decreases entries@.len() - i,
        {
            let e = &entries[i];
            assert(m[i as int] == e.model());
            if address_eq(&e.account, &account) && bytes_eq(e.key.as_slice(), key.as_slice()) {
                proof {
                    lemma_insert_at(m, account, k, opt_bytes(value), i as int);
                }
                let entry = WriteEntry { account, key, value };
                entries.set(i, entry);
                proof {
                    assert(entries@.map_values(|e: WriteEntry| e.model()) =~= m.take(i as int)
                        + seq![(account, k, opt_bytes(value))] + m.skip(i as int + 1));
                    lemma_insert_sorted(m, account, k, opt_bytes(value));
                }
                self.entries = entries;
                assert(self.model() == model_insert(m, account, k, opt_bytes(value)));
                return;
            }
            if key_less(&account, key.as_slice(), &e.account, e.key.as_slice()) {
                proof {
                    lemma_insert_at(m, account, k, opt_bytes(value), i as int);
                }
                let entry = WriteEntry { account, key, value };
                entries.insert(i, entry);
                proof {
                    assert(entries@.map_values(|e: WriteEntry| e.model()) =~= m.take(i as int)
                        + seq![(account, k, opt_bytes(value))] + m.skip(i as int));
                    lemma_insert_sorted(m, account, k, opt_bytes(value));
                }
                self.entries = entries;
                assert(self.model() == model_insert(m, account, k, opt_bytes(value)));
                return;
            }
            proof {
                lemma_key_total(m[i as int].0, m[i as int].1, account, k);
            }
            i += 1;
        }
        proof {
            lemma_insert_at(m, account, k, opt_bytes(value), i as int);
        }
        let entry = WriteEntry { account, key, value };
        entries.push(entry);
        proof {
            assert(entries@.map_values(|e: WriteEntry| e.model()) =~= m + seq![
                (account, k, opt_bytes(value)),
            ]);
            lemma_insert_sorted(m, account, k, opt_bytes(value));
        }
        self.entries = entries;
    }
}

/// A copy of an optional byte vector.
pub fn clone_opt_bytes(o: &Option<Vec<u8>>) -> (r: Option<Vec<u8>>)
    ensures
        opt_bytes(r) == opt_bytes(*o),
{
    match o {
        Some(v) => Some(bytes_to_vec(v.as_slice())),
        None => None,
    }
}

impl WriteEntry {
    /// A copy of the entry.
    pub fn copy(&self) -> (r: Self)
        ensures
            r.model() == self.model(),
    {
        WriteEntry {
            account: self.account,
            key: bytes_to_vec(self.key.as_slice()),
            value: clone_opt_bytes(&self.value),
        }
    }
}

impl Clone for WriteEntry {
    fn clone(&self) -> (r: Self)
        ensures
            r.model() == self.model(),
    {
        self.copy()
    }
}

impl Clone for WriteSet {
    fn clone(&self) -> (r: Self)
        ensures
            r.model() == self.model(),
    {
        proof {
            use_type_invariant(self);
        }
        let mut entries: Vec<WriteEntry> = Vec::new();
        let mut i: usize = 0;
        while i < self.entries.len()
            invariant
                i <= self.entries@.len(),
                entries@.map_values(|e: WriteEntry| e.model()) == self.model().take(i as int),
            decreases self.entries@.len() - i,
        {
            let ghost before = entries@;
            let e = self.entries[i].copy();
            entries.push(e);
            proof {
                assert(entries@.map_values(|e: WriteEntry| e.model()) =~= before.map_values(
                    |e: WriteEntry| e.model(),
                ).push(e.model()));
                assert(self.model()[i as int] == self.entries@[i as int].model());
                assert(self.model().take(i as int + 1) =~= self.model().take(i as int).push(
                    self.model()[i as int],
                ));
            }
            i += 1;
        }
        assert(self.model().take(self.entries@.len() as int) =~= self.model());
        WriteSet { entries }
    }
}

/// Equality of two addresses, byte by byte.
pub fn address_eq(a: &AccountAddress, b: &AccountAddress) -> (r: bool)
    ensures
        r == (a == b),
        r == (a@ == b@),
{
    let mut i: usize = 0;
    while i < 32
        invariant
            i <= 32,
            forall|j: int| 0 <= j < i ==> a.0[j] == b.0[j],
        decreases 32 - i,
    {
        if a.0[i] != b.0[i] {
            assert(a@[i as int] != b@[i as int]);
            return false;
        }
        i += 1;
    }
    proof {
        broadcast use vstd::array::group_array_axioms;

    }
    assert(a.0 =~= b.0);
    assert(a@ =~= b@);
    true
}

/// Lexicographic comparison of byte strings.
pub fn bytes_less(a: &[u8], b: &[u8]) -> (r: bool)
    ensures
        r == bytes_lt(a@, b@),
{
    let mut i: usize = 0;
    assert(a@.skip(0) =~= a@ && b@.skip(0) =~= b@);
    while i < a.len() && i < b.len()
        invariant
            i <= a@.len(),
            i <= b@.len(),
            bytes_lt(a@, b@) == bytes_lt(a@.skip(i as int), b@.skip(i as int)),
        decreases a@.len() - i,
    {
        if a[i] < b[i] {
            return true;
        }
        if a[i] > b[i] {
            return false;
        }
        assert(a@.skip(i as int).drop_first() =~= a@.skip(i as int + 1));
        assert(b@.skip(i as int).drop_first() =~= b@.skip(i as int + 1));
        i += 1;
    }
    i < b.len()
}

/// The order of storage keys.
pub fn key_less(a1: &AccountAddress, k1: &[u8], a2: &AccountAddress, k2: &[u8]) -> (r: bool)
    ensures
        r == key_lt(*a1, k1@, *a2, k2@),
{
    if bytes_less(a1.0.as_slice(), a2.0.as_slice()) {
        true
    } else if address_eq(a1, a2) {
        bytes_less(k1, k2)
    } else {
        false
    }
}

pub proof fn lemma_bytes_lt_irreflexive(a: Seq<u8>)
    ensures
        !bytes_lt(a, a),
    decreases a.len(),
{
    if a.len() > 0 {
        lemma_bytes_lt_irreflexive(a.drop_first());
    }
}

pub proof fn lemma_bytes_lt_transitive(a: Seq<u8>, b: Seq<u8>, c: Seq<u8>)
    requires
        bytes_lt(a, b),
        bytes_lt(b, c),
    ensures
        bytes_lt(a, c),
    decreases a.len(),
{
    if a.len() > 0 && b.len() > 0 && c.len() > 0 && a[0] == b[0] && b[0] == c[0] {
        lemma_bytes_lt_transitive(a.drop_first(), b.drop_first(), c.drop_first());
    }
}

pub proof fn lemma_bytes_lt_total(a: Seq<u8>, b: Seq<u8>)
    ensures
        a == b || bytes_lt(a, b) || bytes_lt(b, a),
    decreases a.len(),
{
    if a.len() > 0 && b.len() > 0 && a[0] == b[0] {
        lemma_bytes_lt_total(a.drop_first(), b.drop_first());
        if a.drop_first() == b.drop_first() {
            assert(a =~= seq![a[0]] + a.drop_first());
            assert(b =~= seq![b[0]] + b.drop_first());
        }
    } else if a.len() == 0 && b.len() == 0 {
        assert(a =~= b);
    }
}

pub proof fn lemma_bytes_lt_asymmetric(a: Seq<u8>, b: Seq<u8>)
    requires
        bytes_lt(a, b),
    ensures
        !bytes_lt(b, a),
{
    if bytes_lt(b, a) {
        lemma_bytes_lt_transitive(a, b, a);
        lemma_bytes_lt_irreflexive(a);
    }
}

pub proof fn lemma_key_transitive(e1: EntryModel, e2: EntryModel, e3: EntryModel)
    requires
        entry_lt(e1, e2),
        entry_lt(e2, e3),
    ensures
        entry_lt(e1, e3),
{
    if bytes_lt(e1.0@, e2.0@) && bytes_lt(e2.0@, e3.0@) {
        lemma_bytes_lt_transitive(e1.0@, e2.0@, e3.0@);
    } else if bytes_lt(e1.0@, e2.0@) {
    } else if bytes_lt(e2.0@, e3.0@) {
    } else {
        lemma_bytes_lt_transitive(e1.1, e2.1, e3.1);
    }
}

/// Two keys are equal or one comes first.
pub proof fn lemma_key_total(a1: AccountAddress, k1: Seq<u8>, a2: AccountAddress, k2: Seq<u8>)
    ensures
        (a1@ == a2@ && k1 == k2) || key_lt(a1, k1, a2, k2) || key_lt(a2, k2, a1, k1),
{
    lemma_bytes_lt_total(a1@, a2@);
    lemma_bytes_lt_total(k1, k2);
}

pub proof fn lemma_key_asymmetric(a1: AccountAddress, k1: Seq<u8>, a2: AccountAddress, k2: Seq<u8>)
    requires
        key_lt(a1, k1, a2, k2),
    ensures
        !key_lt(a2, k2, a1, k1),
        !(a1@ == a2@ && k1 == k2),
{
    if bytes_lt(a1@, a2@) {
        lemma_bytes_lt_asymmetric(a1@, a2@);
        lemma_bytes_lt_irreflexive(a1@);
    } else {
        lemma_bytes_lt_asymmetric(k1, k2);
        lemma_bytes_lt_irreflexive(k1);
    }
}

/// Where the sorted insert puts the entry, given the first index whose key is not smaller.
proof fn lemma_insert_at(m: Seq<EntryModel>, a: AccountAddress, k: Seq<u8>, v: Option<Seq<u8>>, i: int)
    requires
        sorted(m),
        0 <= i <= m.len(),
        forall|j: int| 0 <= j < i ==> #[trigger] key_lt(m[j].0, m[j].1, a, k),
    ensures
        i == m.len() ==> model_insert(m, a, k, v) == m + seq![(a, k, v)],
        i < m.len() && same_key(m[i], a, k) ==> model_insert(m, a, k, v) == m.take(i) + seq![
            (a, k, v),
        ] + m.skip(i + 1),
        i < m.len() && !same_key(m[i], a, k) && key_lt(a, k, m[i].0, m[i].1) ==> model_insert(
            m,
            a,
            k,
            v,
        ) == m.take(i) + seq![(a, k, v)] + m.skip(i),
    decreases i,
{
    if i == 0 {
        if m.len() == 0 {
            assert(m + seq![(a, k, v)] =~= seq![(a, k, v)]);
        } else {
            assert(m.take(0) + seq![(a, k, v)] + m.skip(1) =~= seq![(a, k, v)] + m.drop_first());
            assert(m.take(0) + seq![(a, k, v)] + m.skip(0) =~= seq![(a, k, v)] + m);
        }
    } else {
        let t = m.drop_first();
        assert forall|j: int| 0 <= j < i - 1 implies #[trigger] key_lt(t[j].0, t[j].1, a, k) by {
            assert(t[j] == m[j + 1]);
            assert(key_lt(m[j + 1].0, m[j + 1].1, a, k));
        }
        assert(sorted(t)) by {
            assert forall|x: int, y: int| 0 <= x < y < t.len() implies entry_lt(
                #[trigger] t[x],
                #[trigger] t[y],
            ) by {
                assert(t[x] == m[x + 1] && t[y] == m[y + 1]);
            }
        }
        lemma_insert_at(t, a, k, v, i - 1);
        assert(key_lt(m[0].0, m[0].1, a, k));
        lemma_key_asymmetric(m[0].0, m[0].1, a, k);
        assert(!same_key(m[0], a, k));
        assert(!key_lt(a, k, m[0].0, m[0].1));
        if i == m.len() {
            assert(seq![m[0]] + (t + seq![(a, k, v)]) =~= m + seq![(a, k, v)]);
        } else {
            assert(seq![m[0]] + (t.take(i - 1) + seq![(a, k, v)] + t.skip(i)) =~= m.take(i)
                + seq![(a, k, v)] + m.skip(i + 1));
            assert(seq![m[0]] + (t.take(i - 1) + seq![(a, k, v)] + t.skip(i - 1)) =~= m.take(i)
                + seq![(a, k, v)] + m.skip(i));
            assert(t[i - 1] == m[i]);
        }
    }
}

/// The sorted insert keeps the entries sorted.
pub proof fn lemma_insert_sorted(m: Seq<EntryModel>, a: AccountAddress, k: Seq<u8>, v: Option<Seq<u8>>)
    requires
        sorted(m),
    ensures
        sorted(model_insert(m, a, k, v)),
    decreases m.len(),
{
    let r = model_insert(m, a, k, v);
    if m.len() == 0 {
    } else if same_key(m[0], a, k) {
        assert forall|i: int, j: int| 0 <= i < j < r.len() implies entry_lt(
            #[trigger] r[i],
            #[trigger] r[j],
        ) by {
            if i == 0 {
                assert(entry_lt(m[0], m[j]));
                assert(r[j] == m[j]);
            } else {
                assert(r[i] == m[i] && r[j] == m[j]);
            }
        }
    } else if key_lt(a, k, m[0].0, m[0].1) {
        assert forall|i: int, j: int| 0 <= i < j < r.len() implies entry_lt(
            #[trigger] r[i],
            #[trigger] r[j],
        ) by {
            if i == 0 {
                assert(r[j] == m[j - 1]);
                if j - 1 > 0 {
                    assert(entry_lt(m[0], m[j - 1]));
                    lemma_key_transitive((a, k, v), m[0], m[j - 1]);
                }
            } else {
                assert(r[i] == m[i - 1] && r[j] == m[j - 1]);
            }
        }
    } else {
        let t = m.drop_first();
        assert(sorted(t)) by {
            assert forall|x: int, y: int| 0 <= x < y < t.len() implies entry_lt(
                #[trigger] t[x],
                #[trigger] t[y],
            ) by {
                assert(t[x] == m[x + 1] && t[y] == m[y + 1]);
            }
        }
        lemma_insert_sorted(t, a, k, v);
        let rt = model_insert(t, a, k, v);
        lemma_key_total(m[0].0, m[0].1, a, k);
        assert(entry_lt(m[0], (a, k, v)));
        lemma_insert_elements(t, a, k, v);
        assert forall|i: int, j: int| 0 <= i < j < r.len() implies entry_lt(
            #[trigger] r[i],
            #[trigger] r[j],
        ) by {
            if i == 0 {
                assert(r[j] == rt[j - 1]);
                let e = rt[j - 1];
                if e == (a, k, v) {
                } else {
                    let q = choose|q: int| 0 <= q < t.len() && t[q] == e;
                    assert(m[q + 1] == e);
                    assert(entry_lt(m[0], m[q + 1]));
                }
            } else {
                assert(r[i] == rt[i - 1] && r[j] == rt[j - 1]);
            }
        }
    }
}

/// Every entry after a sorted insert is the new entry or an old one.
proof fn lemma_insert_elements(m: Seq<EntryModel>, a: AccountAddress, k: Seq<u8>, v: Option<Seq<u8>>)
    ensures
        forall|i: int|
            0 <= i < model_insert(m, a, k, v).len() ==> #[trigger] model_insert(m, a, k, v)[i] == (
            a,
            k,
            v,
        ) || exists|q: int| 0 <= q < m.len() && m[q] == model_insert(m, a, k, v)[i],
    decreases m.len(),
{
    let r = model_insert(m, a, k, v);
    if m.len() == 0 {
    } else if same_key(m[0], a, k) {
        assert forall|i: int| 0 <= i < r.len() implies #[trigger] r[i] == (a, k, v) || exists|
            q: int,
        | 0 <= q < m.len() && m[q] == r[i] by {
            if i > 0 {
                assert(m[i] == r[i]);
            }
        }
    } else if key_lt(a, k, m[0].0, m[0].1) {
        assert forall|i: int| 0 <= i < r.len() implies #[trigger] r[i] == (a, k, v) || exists|
            q: int,
        | 0 <= q < m.len() && m[q] == r[i] by {
            if i > 0 {
                assert(m[i - 1] == r[i]);
            }
        }
    } else {
        let t = m.drop_first();
        lemma_insert_elements(t, a, k, v);
        let rt = model_insert(t, a, k, v);
        assert forall|i: int| 0 <= i < r.len() implies #[trigger] r[i] == (a, k, v) || exists|
            q: int,
        | 0 <= q < m.len() && m[q] == r[i] by {
            if i == 0 {
                assert(m[0] == r[0]);
            } else {
                assert(r[i] == rt[i - 1]);
                if rt[i - 1] != (a, k, v) {
                    let q = choose|q: int| 0 <= q < t.len() && t[q] == rt[i - 1];
                    assert(m[q + 1] == r[i]);
                }
            }
        }
    }
}

/// A read after a write gives back what was written.
pub proof fn lemma_lookup_insert_same(m: Seq<EntryModel>, a: AccountAddress, k: Seq<u8>, v: Option<Seq<u8>>)
    ensures
        model_lookup(model_insert(m, a, k, v), a, k) == Some(v),
    decreases m.len(),
{
    if m.len() > 0 && !same_key(m[0], a, k) && !key_lt(a, k, m[0].0, m[0].1) {
        lemma_insert_tail(m, a, k, v);
        lemma_lookup_insert_same(m.drop_first(), a, k, v);
    }
}

proof fn lemma_insert_tail(m: Seq<EntryModel>, a: AccountAddress, k: Seq<u8>, v: Option<Seq<u8>>)
    requires
        m.len() > 0,
        !same_key(m[0], a, k),
        !key_lt(a, k, m[0].0, m[0].1),
    ensures
        model_insert(m, a, k, v)[0] == m[0],
        model_insert(m, a, k, v).drop_first() == model_insert(m.drop_first(), a, k, v),
{
    assert((seq![m[0]] + model_insert(m.drop_first(), a, k, v)).drop_first() =~= model_insert(
        m.drop_first(),
        a,
        k,
        v,
    ));
}

/// A write to one key leaves the reads of every other key unchanged.
pub proof fn lemma_lookup_insert_other(
    m: Seq<EntryModel>,
    a: AccountAddress,
    k: Seq<u8>,
    v: Option<Seq<u8>>,
    a2: AccountAddress,
    k2: Seq<u8>,
)
    requires
        !(a@ == a2@ && k == k2),
    ensures
        model_lookup(model_insert(m, a, k, v), a2, k2) == model_lookup(m, a2, k2),
    decreases m.len(),
{
    let r = model_insert(m, a, k, v);
    if m.len() == 0 {
    } else if same_key(m[0], a, k) {
        assert(r.drop_first() =~= m.drop_first());
    } else if key_lt(a, k, m[0].0, m[0].1) {
        assert(r.drop_first() =~= m);
    } else {
        lemma_insert_tail(m, a, k, v);
        lemma_lookup_insert_other(m.drop_first(), a, k, v, a2, k2);
    }
}

} // verus!
