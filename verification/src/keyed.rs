//! Sequences of records kept sorted by a numeric key, with insert-or-replace,
//! remove and lookup. The registry stores windows, workspaces and its two
//! per-workspace maps this way, so every map is a sequence with strictly
//! increasing keys and lookups are unambiguous.

use vstd::pervasive::VecAdditionalExecFns;
use vstd::prelude::*;

verus! {

/// A record stored under a numeric key.
pub trait Keyed: Sized {
    spec fn key(&self) -> u64;

    /// Executable access to the key.
    fn get_key(&self) -> (k: u64)
        ensures
            k == self.key(),
    ;
}

/// The keys of `s` are strictly increasing.
pub open spec fn keys_sorted<T: Keyed>(s: Seq<T>) -> bool {
    forall|i: int, j: int| 0 <= i < j < s.len() ==> s[i].key() < s[j].key()
}

/// The first record of `s` whose key is `k`, if any.
pub open spec fn klookup<T: Keyed>(s: Seq<T>, k: u64) -> Option<T>
    decreases s.len(),
{
    if s.len() == 0 {
        None
    } else if s[0].key() == k {
        Some(s[0])
    } else {
        klookup(s.drop_first(), k)
    }
}

/// `s` with `x` inserted at its key's position; a record already stored under
/// that key is replaced.
pub open spec fn kinsert<T: Keyed>(s: Seq<T>, x: T) -> Seq<T>
    decreases s.len(),
{
    if s.len() == 0 {
        seq![x]
    } else if x.key() < s[0].key() {
        seq![x] + s
    } else if x.key() == s[0].key() {
        seq![x] + s.drop_first()
    } else {
        seq![s[0]] + kinsert(s.drop_first(), x)
    }
}

/// `s` without the records whose key is `k`.
pub open spec fn kremove<T: Keyed>(s: Seq<T>, k: u64) -> Seq<T>
    decreases s.len(),
{
    if s.len() == 0 {
        s
    } else {
        let rest = kremove(s.drop_last(), k);
        if s.last().key() == k {
            rest
        } else {
            rest.push(s.last())
        }
    }
}

/// The records of `l` folded one by one into `acc` (earlier records are
/// replaced by later ones with the same key).
pub open spec fn kcanon_fold<T: Keyed>(acc: Seq<T>, l: Seq<T>) -> Seq<T>
    decreases l.len(),
{
    if l.len() == 0 {
        acc
    } else {
        kcanon_fold(kinsert(acc, l[0]), l.drop_first())
    }
}

/// The canonical sorted form of an arbitrary record list: sorted by key, one
/// record per key, the last record of `l` with a given key winning.
pub open spec fn kcanon<T: Keyed>(l: Seq<T>) -> Seq<T> {
    kcanon_fold(Seq::empty(), l)
}

/// Every record of `kinsert(s, x)` is `x` or a record of `s`.
pub proof fn lemma_kinsert_contains<T: Keyed>(s: Seq<T>, x: T)
    ensures
        forall|i: int|
            0 <= i < kinsert(s, x).len() ==> kinsert(s, x)[i] == x || s.contains(
                #[trigger] kinsert(s, x)[i],
            ),
    decreases s.len(),
{
    if s.len() == 0 {
    } else if x.key() < s[0].key() {
    } else if x.key() == s[0].key() {
        assert forall|i: int| 0 <= i < kinsert(s, x).len() implies kinsert(s, x)[i] == x
            || s.contains(#[trigger] kinsert(s, x)[i]) by {
            if i >= 1 {
                assert(kinsert(s, x)[i] == s.drop_first()[i - 1]);
                assert(s.drop_first()[i - 1] == s[i]);
            }
        }
    } else {
        lemma_kinsert_contains(s.drop_first(), x);
        let rest = kinsert(s.drop_first(), x);
        assert forall|i: int| 0 <= i < kinsert(s, x).len() implies kinsert(s, x)[i] == x
            || s.contains(#[trigger] kinsert(s, x)[i]) by {
            if i >= 1 {
                assert(kinsert(s, x)[i] == rest[i - 1]);
                if rest[i - 1] != x {
                    assert(s.drop_first().contains(rest[i - 1]));
                    let j = choose|j: int|
                        0 <= j < s.drop_first().len() && s.drop_first()[j] == rest[i - 1];
                    assert(s[j + 1] == rest[i - 1]);
                }
            }
        }
    }
}

/// Inserting keeps the keys strictly increasing.
pub proof fn lemma_kinsert_sorted<T: Keyed>(s: Seq<T>, x: T)
    requires
        keys_sorted(s),
    ensures
        keys_sorted(kinsert(s, x)),
    decreases s.len(),
{
    if s.len() == 0 {
    } else if x.key() < s[0].key() {
        assert forall|i: int, j: int|
            0 <= i < j < kinsert(s, x).len() implies (kinsert(s, x)[i].key() < kinsert(
            s,
            x,
        )[j].key()) by {
            if i >= 1 {
                assert(kinsert(s, x)[i] == s[i - 1]);
            }
            assert(kinsert(s, x)[j] == s[j - 1]);
        }
    } else if x.key() == s[0].key() {
        assert forall|i: int, j: int|
            0 <= i < j < kinsert(s, x).len() implies (kinsert(s, x)[i].key() < kinsert(
            s,
            x,
        )[j].key()) by {
            if i >= 1 {
                assert(kinsert(s, x)[i] == s[i]);
            }
            assert(kinsert(s, x)[j] == s[j]);
        }
    } else {
        assert(keys_sorted(s.drop_first()));
        lemma_kinsert_sorted(s.drop_first(), x);
        lemma_kinsert_contains(s.drop_first(), x);
        let rest = kinsert(s.drop_first(), x);
        assert forall|i: int, j: int|
            0 <= i < j < kinsert(s, x).len() implies (kinsert(s, x)[i].key() < kinsert(
            s,
            x,
        )[j].key()) by {
            if i == 0 {
                assert(kinsert(s, x)[j] == rest[j - 1]);
                if rest[j - 1] == x {
                } else {
                    assert(s.drop_first().contains(rest[j - 1]));
                    let m = choose|m: int|
                        0 <= m < s.drop_first().len() && s.drop_first()[m] == rest[j - 1];
                    assert(s[m + 1] == rest[j - 1]);
                }
            } else {
                assert(kinsert(s, x)[i] == rest[i - 1]);
                assert(kinsert(s, x)[j] == rest[j - 1]);
            }
        }
    }
}

/// The canonical form of a list has strictly increasing keys.
pub proof fn lemma_kcanon_fold_sorted<T: Keyed>(acc: Seq<T>, l: Seq<T>)
    requires
        keys_sorted(acc),
    ensures
        keys_sorted(kcanon_fold(acc, l)),
    decreases l.len(),
{
    if l.len() > 0 {
        lemma_kinsert_sorted(acc, l[0]);
        lemma_kcanon_fold_sorted(kinsert(acc, l[0]), l.drop_first());
    }
}

/// Every record of `kremove(s, k)` is a record of `s`.
pub proof fn lemma_kremove_contains<T: Keyed>(s: Seq<T>, k: u64)
    ensures
        forall|i: int|
            0 <= i < kremove(s, k).len() ==> s.contains(#[trigger] kremove(s, k)[i]),
    decreases s.len(),
{
    if s.len() > 0 {
        lemma_kremove_contains(s.drop_last(), k);
        let rest = kremove(s.drop_last(), k);
        assert forall|i: int| 0 <= i < kremove(s, k).len() implies s.contains(
            #[trigger] kremove(s, k)[i],
        ) by {
            if i < rest.len() {
                assert(kremove(s, k)[i] == rest[i]);
                assert(s.drop_last().contains(rest[i]));
                let m = choose|m: int|
                    0 <= m < s.drop_last().len() && s.drop_last()[m] == rest[i];
                assert(s[m] == rest[i]);
            } else {
                assert(kremove(s, k)[i] == s.last());
            }
        }
    }
}

/// Removal keeps the keys strictly increasing.
pub proof fn lemma_kremove_sorted<T: Keyed>(s: Seq<T>, k: u64)
    requires
        keys_sorted(s),
    ensures
        keys_sorted(kremove(s, k)),
    decreases s.len(),
{
    if s.len() > 0 {
        assert(keys_sorted(s.drop_last()));
        lemma_kremove_sorted(s.drop_last(), k);
        lemma_kremove_contains(s.drop_last(), k);
        let rest = kremove(s.drop_last(), k);
        if s.last().key() != k {
            assert forall|i: int, j: int|
                0 <= i < j < kremove(s, k).len() implies (kremove(s, k)[i].key() < kremove(
                s,
                k,
            )[j].key()) by {
                if j == kremove(s, k).len() - 1 {
                    assert(kremove(s, k)[j] == s.last());
                    assert(kremove(s, k)[i] == rest[i]);
                    assert(s.drop_last().contains(rest[i]));
                    let m = choose|m: int|
                        0 <= m < s.drop_last().len() && s.drop_last()[m] == rest[i];
                    assert(s[m] == rest[i]);
                    assert(s[m].key() < s.last().key());
                } else {
                    assert(kremove(s, k)[i] == rest[i]);
                    assert(kremove(s, k)[j] == rest[j]);
                }
            }
        }
    }
}

/// A removal of a key that no record carries changes nothing.
pub proof fn lemma_kremove_absent<T: Keyed>(s: Seq<T>, k: u64)
    requires
        forall|j: int| 0 <= j < s.len() ==> s[j].key() != k,
    ensures
        kremove(s, k) == s,
    decreases s.len(),
{
    if s.len() > 0 {
        lemma_kremove_absent(s.drop_last(), k);
        assert(s.drop_last().push(s.last()) =~= s);
    }
}

/// With strictly increasing keys, removing key `k` removes exactly the one
/// record stored at position `i` under it.
pub proof fn lemma_kremove_at<T: Keyed>(s: Seq<T>, k: u64, i: int)
    requires
        keys_sorted(s),
        0 <= i < s.len(),
        s[i].key() == k,
    ensures
        kremove(s, k) == s.remove(i),
    decreases s.len(),
{
    if i == s.len() - 1 {
        assert(s.last().key() == k);
        assert(forall|j: int| 0 <= j < s.drop_last().len() ==> s.drop_last()[j].key() != k);
        lemma_kremove_absent(s.drop_last(), k);
        assert(s.remove(i) =~= s.drop_last());
    } else {
        assert(s.last().key() != k);
        assert(keys_sorted(s.drop_last()));
        assert(s.drop_last()[i] == s[i]);
        lemma_kremove_at(s.drop_last(), k, i);
        assert(kremove(s, k) == s.drop_last().remove(i).push(s.last()));
        assert(s.drop_last().remove(i).push(s.last()) =~= s.remove(i));
    }
}

/// First stored record with key `k`, by linear scan.
pub fn klookup_ref<T: Keyed>(v: &Vec<T>, k: u64) -> (r: Option<&T>)
    ensures
        match r {
            Some(t) => klookup(v@, k) == Some(*t),
            None => klookup(v@, k) is None,
        },
{
    proof {
        assert(v@.skip(0) =~= v@);
    }
    let mut i: usize = 0;
    while i < v.len()
        invariant
            0 <= i <= v@.len(),
            klookup(v@, k) == klookup(v@.skip(i as int), k),
        decreases v@.len() - i,
    {
        proof {
            assert(v@.skip(i as int)[0] == v@[i as int]);
        }
        if v[i].get_key() == k {
            return Some(&v[i]);
        }
        proof {
            assert(v@.skip(i as int).drop_first() =~= v@.skip(i as int + 1));
        }
        i += 1;
    }
    None
}

/// Insert `x` at its key's position, replacing a record stored under the same
/// key.
pub fn kinsert_vec<T: Keyed>(v: &mut Vec<T>, x: T)
    requires
        keys_sorted(old(v)@),
    ensures
        final(v)@ == kinsert(old(v)@, x),
        keys_sorted(final(v)@),
{
    proof {
        lemma_kinsert_sorted(old(v)@, x);
    }
    let k = x.get_key();
    let mut i: usize = 0;
    while i < v.len() && v[i].get_key() < k
        invariant
            0 <= i <= v@.len(),
            v@ == old(v)@,
            k == x.key(),
            forall|j: int| 0 <= j < i ==> v@[j].key() < x.key(),
        decreases v@.len() - i,
    {
        i += 1;
    }
    proof {
        lemma_kinsert_split(v@, x, i as int);
    }
    if i < v.len() && v[i].get_key() == k {
        v.set(i, x);
    } else {
        v.insert(i, x);
    }
}

/// Where `kinsert` puts its record: at the first position whose key is not
/// below the new key, replacing on an equal key.
pub proof fn lemma_kinsert_split<T: Keyed>(s: Seq<T>, x: T, i: int)
    requires
        keys_sorted(s),
        0 <= i <= s.len(),
        forall|j: int| 0 <= j < i ==> s[j].key() < x.key(),
        i < s.len() ==> s[i].key() >= x.key(),
    ensures
        i < s.len() && s[i].key() == x.key() ==> kinsert(s, x) == s.update(i, x),
        !(i < s.len() && s[i].key() == x.key()) ==> kinsert(s, x) == s.insert(i, x),
    decreases i,
{
    if i == 0 {
        if s.len() == 0 {
            assert(kinsert(s, x) =~= s.insert(0, x));
        } else if s[0].key() == x.key() {
            assert(kinsert(s, x) =~= s.update(0, x));
        } else {
            assert(x.key() < s[0].key());
            assert(kinsert(s, x) =~= s.insert(0, x));
        }
    } else {
        assert(s[0].key() < x.key());
        assert(keys_sorted(s.drop_first()));
        lemma_kinsert_split(s.drop_first(), x, i - 1);
        let d = s.drop_first();
        if i < s.len() && s[i].key() == x.key() {
            assert(d[i - 1] == s[i]);
            assert(kinsert(s, x) == seq![s[0]] + d.update(i - 1, x));
            assert(seq![s[0]] + d.update(i - 1, x) =~= s.update(i, x));
        } else {
            assert(kinsert(s, x) == seq![s[0]] + d.insert(i - 1, x));
            assert(seq![s[0]] + d.insert(i - 1, x) =~= s.insert(i, x));
        }
    }
}

/// Remove the record stored under key `k`, if any.
pub fn kremove_vec<T: Keyed>(v: &mut Vec<T>, k: u64)
    requires
        keys_sorted(old(v)@),
    ensures
        final(v)@ == kremove(old(v)@, k),
        keys_sorted(final(v)@),
{
    proof {
        lemma_kremove_sorted(old(v)@, k);
    }
    let mut i: usize = 0;
    while i < v.len()
        invariant
            0 <= i <= v@.len(),
            v@ == old(v)@,
            keys_sorted(v@),
            forall|j: int| 0 <= j < i ==> v@[j].key() != k,
        decreases v@.len() - i,
    {
        if v[i].get_key() == k {
            proof {
                lemma_kremove_at(v@, k, i as int);
            }
            v.remove(i);
            return ;
        }
        i += 1;
    }
    proof {
        lemma_kremove_absent(v@, k);
    }
}

/// Fold an arbitrary record list into its canonical sorted form; of several
/// records with one key the last wins.
pub fn kcanon_vec<T: Keyed>(list: Vec<T>) -> (r: Vec<T>)
    ensures
        r@ == kcanon(list@),
        keys_sorted(r@),
{
    let ghost full = list@;
    let mut rest = list;
    let mut acc: Vec<T> = Vec::new();
    while rest.len() > 0
        invariant
            keys_sorted(acc@),
            kcanon_fold(acc@, rest@) == kcanon(full),
        decreases rest@.len(),
    {
        let ghost prev = rest@;
        let x = rest.remove(0);
        proof {
            assert(rest@ =~= prev.drop_first());
        }
        kinsert_vec(&mut acc, x);
    }
    acc
}

} // verus!
