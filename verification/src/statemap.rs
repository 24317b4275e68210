//! Small association maps for the per-device prior-sample state.
//!
//! Device identity is dynamic: every tick rebuilds the set of cores, disks
//! and interfaces from the current read.  The maps here are plain vectors of
//! pairs with unique keys — one sorted variant keyed by a numeric id (CPU
//! cores, emitted in id order) and one keyed by a device name.

use vstd::prelude::*;
use crate::bytes::bytes_eq;

verus! {

/// First-match lookup in a numeric-keyed association list.
pub open spec fn lookup_u64<V>(s: Seq<(u64, V)>, k: u64) -> Option<V>
    decreases s.len(),
{
    if s.len() == 0 {
        None
    } else if s[0].0 == k {
        Some(s[0].1)
    } else {
        lookup_u64(s.drop_first(), k)
    }
}

/// Keys strictly ascending.
pub open spec fn sorted_keys<V>(s: Seq<(u64, V)>) -> bool {
    forall|i: int, j: int| 0 <= i < j < s.len() ==> s[i].0 < s[j].0
}

/// Insertion into a sorted association list, replacing an equal key.
pub open spec fn sorted_insert_spec<V>(s: Seq<(u64, V)>, k: u64, v: V) -> Seq<(u64, V)>
    decreases s.len(),
{
    if s.len() == 0 {
        seq![(k, v)]
    } else if k < s[0].0 {
        seq![(k, v)] + s
    } else if k == s[0].0 {
        seq![(k, v)] + s.drop_first()
    } else {
        seq![s[0]] + sorted_insert_spec(s.drop_first(), k, v)
    }
}

pub proof fn lemma_sorted_insert_keeps_sorted<V>(s: Seq<(u64, V)>, k: u64, v: V)
    requires
        sorted_keys(s),
    ensures
        sorted_keys(sorted_insert_spec(s, k, v)),
        sorted_insert_spec(s, k, v).len() >= s.len(),
        sorted_insert_spec(s, k, v).len() <= s.len() + 1,
    decreases s.len(),
{
    if s.len() == 0 {
    } else if k < s[0].0 {
    } else if k == s[0].0 {
    } else {
        assert(sorted_keys(s.drop_first())) by {
            assert(forall|i: int, j: int|
                0 <= i < j < s.len() - 1 ==> s.drop_first()[i].0 < s.drop_first()[j].0);
        }
        lemma_sorted_insert_keeps_sorted(s.drop_first(), k, v);
        let r = sorted_insert_spec(s, k, v);
        let rr = sorted_insert_spec(s.drop_first(), k, v);
        assert forall|i: int, j: int| 0 <= i < j < r.len() implies r[i].0 < r[j].0 by {
            if i == 0 {
                if j >= 1 {
                    assert(r[j] == rr[j - 1]);
                    lemma_sorted_insert_key_bound(s.drop_first(), k, v, j - 1);
                }
            } else {
                assert(r[i] == rr[i - 1]);
                assert(r[j] == rr[j - 1]);
            }
        }
    }
}

/// Every key of the inserted list is either `k` or a key of the original.
proof fn lemma_sorted_insert_key_bound<V>(s: Seq<(u64, V)>, k: u64, v: V, i: int)
    requires
        0 <= i < sorted_insert_spec(s, k, v).len(),
    ensures
        sorted_insert_spec(s, k, v)[i].0 == k || exists|j: int|
            0 <= j < s.len() && s[j].0 == sorted_insert_spec(s, k, v)[i].0,
    decreases s.len(),
{
    if s.len() == 0 {
    } else if k < s[0].0 {
        if i > 0 {
            assert(sorted_insert_spec(s, k, v)[i] == s[i - 1]);
        }
    } else if k == s[0].0 {
        if i > 0 {
            assert(sorted_insert_spec(s, k, v)[i] == s.drop_first()[i - 1]);
            assert(s[i] == s.drop_first()[i - 1]);
        }
    } else {
        if i == 0 {
        } else {
            lemma_sorted_insert_key_bound(s.drop_first(), k, v, i - 1);
            let e = sorted_insert_spec(s.drop_first(), k, v)[i - 1];
            assert(sorted_insert_spec(s, k, v)[i] == e);
            if e.0 != k {
                let j = choose|j: int|
                    0 <= j < s.drop_first().len() && s.drop_first()[j].0 == e.0;
                assert(s[j + 1].0 == e.0);
            }
        }
    }
}

/// Looking up the inserted key finds the new value; other keys are
/// unchanged.
pub proof fn lemma_sorted_insert_lookup<V>(s: Seq<(u64, V)>, k: u64, v: V, q: u64)
    ensures
        q == k ==> lookup_u64(sorted_insert_spec(s, k, v), q) == Some(v),
        q != k ==> lookup_u64(sorted_insert_spec(s, k, v), q) == lookup_u64(s, q),
    decreases s.len(),
{
    let r = sorted_insert_spec(s, k, v);
    if s.len() == 0 {
        assert(r == seq![(k, v)]);
        assert(r.drop_first() =~= Seq::<(u64, V)>::empty());
        assert(lookup_u64(r, q) == if r[0].0 == q {
            Some(r[0].1)
        } else {
            lookup_u64(r.drop_first(), q)
        });
    } else if k < s[0].0 {
        assert(r[0] == (k, v));
        assert(r.drop_first() =~= s);
        assert(lookup_u64(r, q) == if r[0].0 == q {
            Some(r[0].1)
        } else {
            lookup_u64(r.drop_first(), q)
        });
    } else if k == s[0].0 {
        assert(r[0] == (k, v));
        assert(r.drop_first() =~= s.drop_first());
        assert(lookup_u64(r, q) == if r[0].0 == q {
            Some(r[0].1)
        } else {
            lookup_u64(r.drop_first(), q)
        });
        assert(lookup_u64(s, q) == if s[0].0 == q {
            Some(s[0].1)
        } else {
            lookup_u64(s.drop_first(), q)
        });
    } else {
        lemma_sorted_insert_lookup(s.drop_first(), k, v, q);
        assert(r[0] == s[0]);
        assert(r.drop_first() =~= sorted_insert_spec(s.drop_first(), k, v));
        assert(lookup_u64(r, q) == if r[0].0 == q {
            Some(r[0].1)
        } else {
            lookup_u64(r.drop_first(), q)
        });
        assert(lookup_u64(s, q) == if s[0].0 == q {
            Some(s[0].1)
        } else {
            lookup_u64(s.drop_first(), q)
        });
    }
}

/// Inserts into a sorted-by-key vector, replacing an equal key.
pub fn sorted_insert<V>(m: &mut Vec<(u64, V)>, k: u64, v: V)
    requires
        sorted_keys(old(m)@),
    ensures
        final(m)@ == sorted_insert_spec(old(m)@, k, v),
        sorted_keys(final(m)@),
{
    proof {
        lemma_sorted_insert_keeps_sorted(old(m)@, k, v);
    }
    let mut i: usize = 0;
    while i < m.len() && m[i].0 < k
        invariant
            i <= m@.len(),
            m@ == old(m)@,
            forall|j: int| 0 <= j < i ==> m@[j].0 < k,
        decreases m@.len() - i,
    {
        i += 1;
    }
    let ghost kv = (k, v);
    if i < m.len() && m[i].0 == k {
        m.remove(i);
        m.insert(i, (k, v));
        proof {
            lemma_sorted_insert_at(old(m)@, kv.0, kv.1, i as int);
            assert(m@ =~= old(m)@.take(i as int) + seq![kv] + old(m)@.skip(i + 1));
        }
    } else {
        m.insert(i, (k, v));
        proof {
            lemma_sorted_insert_at(old(m)@, kv.0, kv.1, i as int);
            assert(m@ =~= old(m)@.take(i as int) + seq![kv] + old(m)@.skip(i as int));
        }
    }
}

/// Where the scan stops is where the spec insertion lands.
proof fn lemma_sorted_insert_at<V>(s: Seq<(u64, V)>, k: u64, v: V, i: int)
    requires
        0 <= i <= s.len(),
        forall|j: int| 0 <= j < i ==> s[j].0 < k,
        i == s.len() || s[i].0 >= k,
    ensures
        i < s.len() && s[i].0 == k ==> sorted_insert_spec(s, k, v) == s.take(i) + seq![(k, v)]
            + s.skip(i + 1),
        !(i < s.len() && s[i].0 == k) ==> sorted_insert_spec(s, k, v) == s.take(i) + seq![(k, v)]
            + s.skip(i),
    decreases s.len(),
{
    if s.len() == 0 {
        assert(sorted_insert_spec(s, k, v) =~= s.take(0) + seq![(k, v)] + s.skip(0));
    } else if i == 0 {
        if s[0].0 == k {
            assert(sorted_insert_spec(s, k, v) =~= s.take(0) + seq![(k, v)] + s.skip(1));
        } else {
            assert(k < s[0].0);
            assert(sorted_insert_spec(s, k, v) =~= s.take(0) + seq![(k, v)] + s.skip(0));
        }
    } else {
        assert(s[0].0 < k);
        assert(forall|j: int| 0 <= j < i - 1 ==> s.drop_first()[j].0 < k);
        lemma_sorted_insert_at(s.drop_first(), k, v, i - 1);
        if i < s.len() && s[i].0 == k {
            assert(s.drop_first()[i - 1].0 == k);
            assert(seq![s[0]] + (s.drop_first().take(i - 1) + seq![(k, v)] + s.drop_first().skip(
                i,
            )) =~= s.take(i) + seq![(k, v)] + s.skip(i + 1));
        } else {
            assert(seq![s[0]] + (s.drop_first().take(i - 1) + seq![(k, v)] + s.drop_first().skip(
                i - 1,
            )) =~= s.take(i) + seq![(k, v)] + s.skip(i));
        }
    }
}

/// Looks a key up in a sorted-by-key vector.
pub fn sorted_get<'a, V>(m: &'a Vec<(u64, V)>, k: u64) -> (r: Option<&'a V>)
    ensures
        match r {
            Some(v) => lookup_u64(m@, k) == Some(*v),
            None => lookup_u64(m@, k) is None,
        },
{
    let mut i: usize = 0;
    proof {
        assert(m@.skip(0) =~= m@);
    }
    while i < m.len()
        invariant
            i <= m@.len(),
            lookup_u64(m@, k) == lookup_u64(m@.skip(i as int), k),
        decreases m@.len() - i,
    {
        proof {
            assert(m@.skip(i as int).drop_first() =~= m@.skip(i + 1 as int));
        }
        if m[i].0 == k {
            return Some(&m[i].1);
        }
        i += 1;
    }
    None
}

/// First-match lookup in a name-keyed association list.
pub open spec fn lookup_name<V>(s: Seq<(Vec<u8>, V)>, k: Seq<u8>) -> Option<V>
    decreases s.len(),
{
    if s.len() == 0 {
        None
    } else if s[0].0@ == k {
        Some(s[0].1)
    } else {
        lookup_name(s.drop_first(), k)
    }
}

/// Appends or replaces a name key.
pub open spec fn upsert_name_spec<V>(s: Seq<(Vec<u8>, V)>, k: Vec<u8>, v: V) -> Seq<(Vec<u8>, V)>
    decreases s.len(),
{
    if s.len() == 0 {
        seq![(k, v)]
    } else if s[0].0@ == k@ {
        seq![(k, v)] + s.drop_first()
    } else {
        seq![s[0]] + upsert_name_spec(s.drop_first(), k, v)
    }
}

/// Inserts into a name-keyed vector, replacing an equal key.
pub fn upsert_name<V>(m: &mut Vec<(Vec<u8>, V)>, k: Vec<u8>, v: V)
    ensures
        final(m)@ == upsert_name_spec(old(m)@, k, v),
{
    let mut found: Option<usize> = None;
    let mut i: usize = 0;
    while i < m.len()
        invariant
            i <= m@.len(),
            m@ == old(m)@,
            match found {
                Some(f) => f < i && m@[f as int].0@ == k@ && forall|j: int|
                    0 <= j < f ==> m@[j].0@ != k@,
                None => forall|j: int| 0 <= j < i ==> m@[j].0@ != k@,
            },
        decreases m@.len() - i,
    {
        if found.is_none() && bytes_eq(m[i].0.as_slice(), k.as_slice()) {
            found = Some(i);
        }
        i += 1;
    }
    let ghost kv = (k, v);
    if let Some(f) = found {
        m.remove(f);
        m.insert(f, (k, v));
        proof {
            lemma_upsert_name_at(old(m)@, kv.0, kv.1, f as int);
            assert(m@ =~= old(m)@.take(f as int) + seq![kv] + old(m)@.skip(f + 1));
        }
        return;
    }
    proof {
        lemma_upsert_name_at(old(m)@, kv.0, kv.1, old(m)@.len() as int);
        assert(old(m)@.push(kv) =~= old(m)@.take(old(m)@.len() as int) + seq![kv] + old(m)@.skip(
            old(m)@.len() as int,
        ));
    }
    m.push((k, v));
}

proof fn lemma_upsert_name_at<V>(s: Seq<(Vec<u8>, V)>, k: Vec<u8>, v: V, i: int)
    requires
        0 <= i <= s.len(),
        forall|j: int| 0 <= j < i ==> s[j].0@ != k@,
        i == s.len() || s[i].0@ == k@,
    ensures
        i < s.len() ==> upsert_name_spec(s, k, v) == s.take(i) + seq![(k, v)] + s.skip(i + 1),
        i == s.len() ==> upsert_name_spec(s, k, v) == s.take(i) + seq![(k, v)] + s.skip(i),
    decreases s.len(),
{
    if s.len() == 0 {
        assert(upsert_name_spec(s, k, v) =~= s.take(0) + seq![(k, v)] + s.skip(0));
    } else if i == 0 {
        assert(upsert_name_spec(s, k, v) =~= s.take(0) + seq![(k, v)] + s.skip(1));
    } else {
        assert(s[0].0@ != k@);
        assert(forall|j: int| 0 <= j < i - 1 ==> s.drop_first()[j].0@ != k@);
        lemma_upsert_name_at(s.drop_first(), k, v, i - 1);
        if i < s.len() {
            assert(seq![s[0]] + (s.drop_first().take(i - 1) + seq![(k, v)] + s.drop_first().skip(
                i,
            )) =~= s.take(i) + seq![(k, v)] + s.skip(i + 1));
        } else {
            assert(seq![s[0]] + (s.drop_first().take(i - 1) + seq![(k, v)] + s.drop_first().skip(
                i - 1,
            )) =~= s.take(i) + seq![(k, v)] + s.skip(i));
        }
    }
}

/// The ghost image of a name-keyed vector: names as sequences.
pub open spec fn name_entries<V>(s: Seq<(Vec<u8>, V)>) -> Seq<(Seq<u8>, V)> {
    s.map_values(|e: (Vec<u8>, V)| (e.0@, e.1))
}

/// First-match lookup among ghost name entries.
pub open spec fn lookup_seq<V>(s: Seq<(Seq<u8>, V)>, k: Seq<u8>) -> Option<V>
    decreases s.len(),
{
    if s.len() == 0 {
        None
    } else if s[0].0 == k {
        Some(s[0].1)
    } else {
        lookup_seq(s.drop_first(), k)
    }
}

/// Appends or replaces a key among ghost name entries.
pub open spec fn upsert_seq<V>(s: Seq<(Seq<u8>, V)>, k: Seq<u8>, v: V) -> Seq<(Seq<u8>, V)>
    decreases s.len(),
{
    if s.len() == 0 {
        seq![(k, v)]
    } else if s[0].0 == k {
        seq![(k, v)] + s.drop_first()
    } else {
        seq![s[0]] + upsert_seq(s.drop_first(), k, v)
    }
}

/// The vector operation and its ghost image agree.
pub proof fn lemma_upsert_projects<V>(s: Seq<(Vec<u8>, V)>, k: Vec<u8>, v: V)
    ensures
        name_entries(upsert_name_spec(s, k, v)) == upsert_seq(name_entries(s), k@, v),
    decreases s.len(),
{
    if s.len() == 0 {
        assert(name_entries(upsert_name_spec(s, k, v)) =~= upsert_seq(name_entries(s), k@, v));
    } else if s[0].0@ == k@ {
        assert(name_entries(seq![(k, v)] + s.drop_first()) =~= seq![(k@, v)] + name_entries(
            s.drop_first(),
        ));
        assert(name_entries(s).drop_first() =~= name_entries(s.drop_first()));
        assert(upsert_seq(name_entries(s), k@, v) =~= seq![(k@, v)] + name_entries(
            s.drop_first(),
        ));
    } else {
        lemma_upsert_projects(s.drop_first(), k, v);
        assert(name_entries(seq![s[0]] + upsert_name_spec(s.drop_first(), k, v)) =~= seq![
            (s[0].0@, s[0].1),
        ] + name_entries(upsert_name_spec(s.drop_first(), k, v)));
        assert(name_entries(s).drop_first() =~= name_entries(s.drop_first()));
        assert(upsert_seq(name_entries(s), k@, v) =~= seq![(s[0].0@, s[0].1)] + upsert_seq(
            name_entries(s.drop_first()),
            k@,
            v,
        ));
    }
}

/// The two lookups agree across the projection.
pub proof fn lemma_lookup_projects<V>(s: Seq<(Vec<u8>, V)>, k: Seq<u8>)
    ensures
        lookup_name(s, k) == lookup_seq(name_entries(s), k),
    decreases s.len(),
{
    if s.len() > 0 {
        lemma_lookup_projects(s.drop_first(), k);
        assert(name_entries(s).drop_first() =~= name_entries(s.drop_first()));
        assert(name_entries(s)[0] == (s[0].0@, s[0].1));
    }
}

/// Looking up the upserted key finds the new value; other keys are
/// unchanged.
pub proof fn lemma_upsert_seq_lookup<V>(s: Seq<(Seq<u8>, V)>, k: Seq<u8>, v: V, q: Seq<u8>)
    ensures
        q == k ==> lookup_seq(upsert_seq(s, k, v), q) == Some(v),
        q != k ==> lookup_seq(upsert_seq(s, k, v), q) == lookup_seq(s, q),
    decreases s.len(),
{
    let r = upsert_seq(s, k, v);
    if s.len() == 0 {
        assert(r == seq![(k, v)]);
        assert(r.drop_first() =~= Seq::<(Seq<u8>, V)>::empty());
        assert(lookup_seq(r, q) == if r[0].0 == q {
            Some(r[0].1)
        } else {
            lookup_seq(r.drop_first(), q)
        });
    } else if s[0].0 == k {
        assert(r[0] == (k, v));
        assert(r.drop_first() =~= s.drop_first());
        assert(lookup_seq(r, q) == if r[0].0 == q {
            Some(r[0].1)
        } else {
            lookup_seq(r.drop_first(), q)
        });
        assert(lookup_seq(s, q) == if s[0].0 == q {
            Some(s[0].1)
        } else {
            lookup_seq(s.drop_first(), q)
        });
    } else {
        lemma_upsert_seq_lookup(s.drop_first(), k, v, q);
        assert(r[0] == s[0]);
        assert(r.drop_first() =~= upsert_seq(s.drop_first(), k, v));
        assert(lookup_seq(r, q) == if r[0].0 == q {
            Some(r[0].1)
        } else {
            lookup_seq(r.drop_first(), q)
        });
        assert(lookup_seq(s, q) == if s[0].0 == q {
            Some(s[0].1)
        } else {
            lookup_seq(s.drop_first(), q)
        });
    }
}

/// Looks a name up in a name-keyed vector.
pub fn name_get<'a, V>(m: &'a Vec<(Vec<u8>, V)>, k: &[u8]) -> (r: Option<&'a V>)
    ensures
        match r {
            Some(v) => lookup_name(m@, k@) == Some(*v),
            None => lookup_name(m@, k@) is None,
        },
{
    let mut i: usize = 0;
    proof {
        assert(m@.skip(0) =~= m@);
    }
    while i < m.len()
        invariant
            i <= m@.len(),
            lookup_name(m@, k@) == lookup_name(m@.skip(i as int), k@),
        decreases m@.len() - i,
    {
        proof {
            assert(m@.skip(i as int).drop_first() =~= m@.skip(i + 1 as int));
        }
        if bytes_eq(m[i].0.as_slice(), k) {
            return Some(&m[i].1);
        }
        i += 1;
    }
    None
}

} // verus!
