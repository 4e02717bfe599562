use vstd::prelude::*;
use crate::value::{JVal, LogValue, value_model};
use crate::strutil::str_eq;

verus! {

/// The index of the first entry with key `k`, or -1 when no entry has it.
pub open spec fn rec_first_index(r: Seq<(Seq<char>, JVal)>, k: Seq<char>) -> int
    decreases r.len(),
{
    if r.len() == 0 {
        -1
    } else if r[0].0 == k {
        0
    } else {
        let rest = rec_first_index(r.drop_first(), k);
        if rest == -1 {
            -1
        } else {
            rest + 1
        }
    }
}

/// Whether some entry of `r` has key `k`.
pub open spec fn rec_has_key(r: Seq<(Seq<char>, JVal)>, k: Seq<char>) -> bool {
    rec_first_index(r, k) != -1
}

/// The value of the first entry with key `k`.
pub open spec fn rec_get(r: Seq<(Seq<char>, JVal)>, k: Seq<char>) -> Option<JVal> {
    if rec_has_key(r, k) {
        Some(r[rec_first_index(r, k)].1)
    } else {
        None
    }
}

/// Insertion: the first entry with key `k` is replaced in place; with no
/// such entry the pair is appended.
pub open spec fn rec_insert(r: Seq<(Seq<char>, JVal)>, k: Seq<char>, v: JVal) -> Seq<
    (Seq<char>, JVal),
> {
    if rec_has_key(r, k) {
        r.update(rec_first_index(r, k), (k, v))
    } else {
        r.push((k, v))
    }
}

/// Insert-if-absent: the pair is appended only when no entry has key `k`.
pub open spec fn rec_try_insert(r: Seq<(Seq<char>, JVal)>, k: Seq<char>, v: JVal) -> Seq<
    (Seq<char>, JVal),
> {
    if rec_has_key(r, k) {
        r
    } else {
        r.push((k, v))
    }
}

/// `rec_first_index` points at the first entry with key `k`: the entry
/// there has key `k` and no earlier entry does; -1 means no entry has it.
pub proof fn lemma_rec_first_index(r: Seq<(Seq<char>, JVal)>, k: Seq<char>)
    ensures
        rec_first_index(r, k) == -1 ==> forall|j: int| 0 <= j < r.len() ==> r[j].0 != k,
        rec_first_index(r, k) != -1 ==> {
            let i = rec_first_index(r, k);
            &&& 0 <= i < r.len()
            &&& r[i].0 == k
            &&& forall|j: int| 0 <= j < i ==> r[j].0 != k
        },
    decreases r.len(),
{
    if r.len() == 0 {
    } else if r[0].0 == k {
    } else {
        lemma_rec_first_index(r.drop_first(), k);
        assert forall|j: int| 1 <= j < r.len() implies r.drop_first()[j - 1] == r[j] by {}
    }
}

/// The converse: an entry with key `k` at `i`, with no earlier entry
/// keyed `k`, is the one `rec_first_index` finds.
pub proof fn lemma_rec_first_index_is(r: Seq<(Seq<char>, JVal)>, k: Seq<char>, i: int)
    requires
        0 <= i < r.len(),
        r[i].0 == k,
        forall|j: int| 0 <= j < i ==> r[j].0 != k,
    ensures
        rec_first_index(r, k) == i,
    decreases r.len(),
{
    if i == 0 {
    } else {
        assert forall|j: int| 0 <= j < i - 1 implies r.drop_first()[j].0 != k by {
            assert(r.drop_first()[j] == r[j + 1]);
        }
        assert(r.drop_first()[i - 1] == r[i]);
        lemma_rec_first_index_is(r.drop_first(), k, i - 1);
    }
}

/// Entries with pointwise equal keys have the same first index for any
/// sought key.
pub proof fn lemma_rec_first_index_same_keys(
    a: Seq<(Seq<char>, JVal)>,
    b: Seq<(Seq<char>, JVal)>,
    k: Seq<char>,
)
    requires
        a.len() == b.len(),
        forall|j: int| 0 <= j < a.len() ==> (#[trigger] a[j]).0 == b[j].0,
    ensures
        rec_first_index(a, k) == rec_first_index(b, k),
    decreases a.len(),
{
    if a.len() > 0 && a[0].0 != k {
        assert forall|j: int| 0 <= j < a.drop_first().len() implies (#[trigger] a.drop_first()[j]).0
            == b.drop_first()[j].0 by {
            assert(a.drop_first()[j] == a[j + 1]);
            assert(b.drop_first()[j] == b[j + 1]);
        }
        lemma_rec_first_index_same_keys(a.drop_first(), b.drop_first(), k);
    }
}

/// After inserting under `k`, looking `k` up finds exactly the inserted
/// value.
pub proof fn lemma_rec_insert_get_same(r: Seq<(Seq<char>, JVal)>, k: Seq<char>, v: JVal)
    ensures
        rec_get(rec_insert(r, k, v), k) == Some(v),
{
    lemma_rec_first_index(r, k);
    let n = rec_insert(r, k, v);
    if rec_has_key(r, k) {
        let i = rec_first_index(r, k);
        lemma_rec_first_index_is(n, k, i);
    } else {
        lemma_rec_first_index_is(n, k, r.len() as int);
    }
}

/// Inserting under `k` leaves every other key's lookup unchanged.
pub proof fn lemma_rec_insert_get_other(
    r: Seq<(Seq<char>, JVal)>,
    k: Seq<char>,
    v: JVal,
    k2: Seq<char>,
)
    requires
        k2 != k,
    ensures
        rec_get(rec_insert(r, k, v), k2) == rec_get(r, k2),
{
    lemma_rec_first_index(r, k);
    lemma_rec_first_index(r, k2);
    let n = rec_insert(r, k, v);
    if rec_has_key(r, k) {
        assert forall|j: int| 0 <= j < r.len() implies (#[trigger] r[j]).0 == n[j].0 by {}
        lemma_rec_first_index_same_keys(r, n, k2);
    } else {
        if rec_first_index(r, k2) != -1 {
            lemma_rec_first_index_is(n, k2, rec_first_index(r, k2));
        } else {
            lemma_rec_first_index(n, k2);
            if rec_first_index(n, k2) != -1 {
                assert(n[rec_first_index(n, k2)].0 == k2);
            }
        }
    }
}

/// Insert-if-absent keeps the stored value under `k` where one exists,
/// stores `v` where none does, and leaves every other key unchanged.
pub proof fn lemma_rec_try_insert_get(
    r: Seq<(Seq<char>, JVal)>,
    k: Seq<char>,
    v: JVal,
    k2: Seq<char>,
)
    ensures
        rec_get(rec_try_insert(r, k, v), k) == (if rec_has_key(r, k) {
            rec_get(r, k)
        } else {
            Some(v)
        }),
        k2 != k ==> rec_get(rec_try_insert(r, k, v), k2) == rec_get(r, k2),
{
    lemma_rec_first_index(r, k);
    lemma_rec_first_index(r, k2);
    let n = rec_try_insert(r, k, v);
    if !rec_has_key(r, k) {
        lemma_rec_first_index_is(n, k, r.len() as int);
        if k2 != k {
            if rec_first_index(r, k2) != -1 {
                lemma_rec_first_index_is(n, k2, rec_first_index(r, k2));
            } else {
                lemma_rec_first_index(n, k2);
                if rec_first_index(n, k2) != -1 {
                    assert(n[rec_first_index(n, k2)].0 == k2);
                }
            }
        }
    }
}

/// An ordered mapping from string keys to values: one unit of structured
/// observability data. Lookup and replacement go to the first entry with
/// the sought key; fresh keys are appended, so entries keep the order in
/// which they were first inserted.
#[derive(Debug, PartialEq, Eq)]
pub struct Record {
    entries: Vec<(String, LogValue)>,
}

impl View for Record {
    type V = Seq<(Seq<char>, JVal)>;

    closed spec fn view(&self) -> Seq<(Seq<char>, JVal)> {
        Seq::new(self.entries@.len(), |i: int| (self.entries@[i].0@, value_model(self.entries@[i].1)))
    }
}

impl Record {
    /// A record with no entries.
    pub fn new() -> (r: Record)
        ensures
            r@ == Seq::<(Seq<char>, JVal)>::empty(),
    {
        let r = Record { entries: Vec::new() };
        proof {
            assert(r@ =~= Seq::<(Seq<char>, JVal)>::empty());
        }
        r
    }

    /// The number of entries.
    pub fn len(&self) -> (n: usize)
        ensures
            n == self@.len(),
    {
        self.entries.len()
    }

    /// The key of the entry at position `i`.
    pub fn key_at(&self, i: usize) -> (k: &String)
        requires
            i < self@.len(),
        ensures
            k@ == self@[i as int].0,
    {
        &self.entries[i].0
    }

    /// The value of the entry at position `i`.
    pub fn value_at(&self, i: usize) -> (v: &LogValue)
        requires
            i < self@.len(),
        ensures
            v@ == self@[i as int].1,
    {
        &self.entries[i].1
    }

    fn find(&self, key: &str) -> (r: Option<usize>)
        ensures
            match r {
                Some(i) => rec_first_index(self@, key@) == i && i < self@.len(),
                None => rec_first_index(self@, key@) == -1,
            },
    {
        let n = self.entries.len();
        let mut i: usize = 0;
        while i < n
            invariant
                n == self@.len(),
                i <= n,
                forall|j: int| 0 <= j < i ==> self@[j].0 != key@,
            decreases n - i,
        {
            if str_eq(self.entries[i].0.as_str(), key) {
                proof {
                    lemma_rec_first_index_is(self@, key@, i as int);
                }
                return Some(i);
            }
            i = i + 1;
        }
        proof {
            lemma_rec_first_index(self@, key@);
            if rec_first_index(self@, key@) != -1 {
                assert(self@[rec_first_index(self@, key@)].0 == key@);
            }
        }
        None
    }

    /// The value stored under `key`, if any.
    pub fn get(&self, key: &str) -> (r: Option<&LogValue>)
        ensures
            match r {
                Some(v) => rec_get(self@, key@) == Some(v@),
                None => rec_get(self@, key@) is None,
            },
    {
        match self.find(key) {
            Some(i) => Some(&self.entries[i].1),
            None => None,
        }
    }

    /// Insert `value` under `key`, replacing the first entry with that key
    /// or appending a fresh one.
    pub fn insert(&mut self, key: &str, value: LogValue)
        ensures
            final(self)@ == rec_insert(old(self)@, key@, value@),
    {
        match self.find(key) {
            Some(i) => {
                self.entries[i] = (key.to_owned(), value);
                proof {
                    assert(final(self)@ =~= rec_insert(old(self)@, key@, value@));
                }
            },
            None => {
                self.entries.push((key.to_owned(), value));
                proof {
                    assert(final(self)@ =~= rec_insert(old(self)@, key@, value@));
                }
            },
        }
    }

    /// Insert `value` under `key` only when the record has no entry with
    /// that key.
    pub fn try_insert(&mut self, key: &str, value: LogValue)
        ensures
            final(self)@ == rec_try_insert(old(self)@, key@, value@),
    {
        match self.find(key) {
            Some(_) => {
                proof {
                    assert(final(self)@ =~= rec_try_insert(old(self)@, key@, value@));
                }
            },
            None => {
                self.entries.push((key.to_owned(), value));
                proof {
                    assert(final(self)@ =~= rec_try_insert(old(self)@, key@, value@));
                }
            },
        }
    }
}

} // verus!
