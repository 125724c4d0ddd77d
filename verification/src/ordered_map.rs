//! Neighbour queries over `BTreeMap`s keyed by page numbers.
//!
//! The maps are walked in increasing key order; the queries return the
//! nearest entry below or above a given key.
use std::collections::BTreeMap;
use vstd::prelude::*;
use vstd::std_specs::cmp::OrdSpec;
use vstd::std_specs::iter::IteratorSpec;

verus! {

broadcast use vstd::std_specs::btree::group_btree_axioms, vstd::laws_cmp::group_laws_cmp;

/// Keys produced by an in-order walk of a `BTreeMap<u64, _>` strictly increase.
pub proof fn lemma_increasing_keys(s: Seq<u64>, i: int, j: int)
    requires
        vstd::std_specs::btree::increasing_seq(s),
        0 <= i < j < s.len(),
    ensures
        s[i] < s[j],
{
    vstd::std_specs::btree::axiom_increasing_seq_meaning(s);
    assert(vstd::laws_cmp::obeys_cmp::<u64>());
    assert(s[i].cmp_spec(&s[j]) is Less);
}

/// Returns the entry with the greatest key below `x` (or at most `x` when
/// `inclusive` holds).
pub fn entry_before<V: Copy>(m: &BTreeMap<u64, V>, x: u64, inclusive: bool) -> (r: Option<(u64, V)>)
    ensures
        match r {
            Some((k, v)) => {
                &&& m@.contains_key(k)
                &&& m@[k] == v
                &&& (if inclusive { k <= x } else { k < x })
                &&& forall|j: u64| #[trigger] m@.contains_key(j) && (if inclusive { j <= x } else { j < x }) ==> j <= k
            },
            None => forall|j: u64| #[trigger] m@.contains_key(j) ==> (if inclusive { j > x } else { j >= x }),
        },
{
    let mut best: Option<(u64, V)> = None;
    let iter = m.iter();
    let ghost s = iter.remaining();
    assert(forall|k: u64| #[trigger] m@.contains_key(k) ==> s.contains((&k, &m@[k])));
    for kv in it: iter
        invariant
            it.seq() == s,
            s.len() == m@.dom().len(),
            forall|i: int| 0 <= i < s.len() ==> m@.contains_key(*s[i].0) && m@[*s[i].0] == *s[i].1,
            forall|k: u64| #[trigger] m@.contains_key(k) ==> s.contains((&k, &m@[k])),
            vstd::std_specs::btree::increasing_seq(s.map_values(|kv: (&u64, &V)| *kv.0)),
            match best {
                Some((k, v)) => {
                    &&& m@.contains_key(k)
                    &&& m@[k] == v
                    &&& (if inclusive { k <= x } else { k < x })
                    &&& forall|i: int| 0 <= i < it.index() && (if inclusive { *s[i].0 <= x } else { *s[i].0 < x }) ==> *s[i].0 <= k
                },
                None => forall|i: int| 0 <= i < it.index() ==> (if inclusive { *s[i].0 > x } else { *s[i].0 >= x }),
            },
    {
        let (k, v) = kv;
        proof {
            let incr = s.map_values(|kv: (&u64, &V)| *kv.0);
            assert(kv == s[it.index() as int]);
            assert forall|i: int| 0 <= i < it.index() implies *s[i].0 < *k by {
                assert(incr[i] == *s[i].0);
                assert(incr[it.index() as int] == *k);
                lemma_increasing_keys(incr, i, it.index() as int);
            }
        }
        if (inclusive && *k <= x) || (!inclusive && *k < x) {
            best = Some((*k, *v));
        }
    }
    proof {
        assert forall|j: u64| #[trigger] m@.contains_key(j) implies (match best {
            Some((k, v)) => (if inclusive { j <= x } else { j < x }) ==> j <= k,
            None => (if inclusive { j > x } else { j >= x }),
        }) by {
            assert(s.contains((&j, &m@[j])));
            let i = choose|i: int| 0 <= i < s.len() && s[i] == (&j, &m@[j]);
            assert(*s[i].0 == j);
        }
    }
    best
}

/// Returns the entry with the least key above `x`.
pub fn entry_after<V: Copy>(m: &BTreeMap<u64, V>, x: u64) -> (r: Option<(u64, V)>)
    ensures
        match r {
            Some((k, v)) => {
                &&& m@.contains_key(k)
                &&& m@[k] == v
                &&& k > x
                &&& forall|j: u64| #[trigger] m@.contains_key(j) && j > x ==> k <= j
            },
            None => forall|j: u64| #[trigger] m@.contains_key(j) ==> j <= x,
        },
{
    let mut best: Option<(u64, V)> = None;
    let iter = m.iter();
    let ghost s = iter.remaining();
    assert(forall|k: u64| #[trigger] m@.contains_key(k) ==> s.contains((&k, &m@[k])));
    for kv in it: iter
        invariant
            it.seq() == s,
            s.len() == m@.dom().len(),
            forall|i: int| 0 <= i < s.len() ==> m@.contains_key(*s[i].0) && m@[*s[i].0] == *s[i].1,
            forall|k: u64| #[trigger] m@.contains_key(k) ==> s.contains((&k, &m@[k])),
            vstd::std_specs::btree::increasing_seq(s.map_values(|kv: (&u64, &V)| *kv.0)),
            match best {
                Some((k, v)) => {
                    &&& m@.contains_key(k)
                    &&& m@[k] == v
                    &&& k > x
                    &&& exists|i: int| 0 <= i < it.index() && *s[i].0 == k
                    &&& forall|i: int| 0 <= i < it.index() && *s[i].0 > x ==> k <= *s[i].0
                },
                None => forall|i: int| 0 <= i < it.index() ==> *s[i].0 <= x,
            },
    {
        let (k, v) = kv;
        proof {
            let incr = s.map_values(|kv: (&u64, &V)| *kv.0);
            assert(kv == s[it.index() as int]);
            assert forall|i: int| 0 <= i < it.index() implies *s[i].0 < *k by {
                assert(incr[i] == *s[i].0);
                assert(incr[it.index() as int] == *k);
                lemma_increasing_keys(incr, i, it.index() as int);
            }
        }
        if best.is_none() && *k > x {
            best = Some((*k, *v));
        }
    }
    proof {
        assert forall|j: u64| #[trigger] m@.contains_key(j) implies (match best {
            Some((k, v)) => j > x ==> k <= j,
            None => j <= x,
        }) by {
            assert(s.contains((&j, &m@[j])));
            let i = choose|i: int| 0 <= i < s.len() && s[i] == (&j, &m@[j]);
            assert(*s[i].0 == j);
        }
    }
    best
}

/// Returns, among the entries whose value is at least `min_len`, one with the
/// least value; ties go to the least key.
pub fn least_value_at_least(m: &BTreeMap<u64, u64>, min_len: u64) -> (r: Option<(u64, u64)>)
    ensures
        match r {
            Some((k, v)) => {
                &&& m@.contains_key(k)
                &&& m@[k] == v
                &&& v >= min_len
                &&& forall|j: u64| #[trigger] m@.contains_key(j) && m@[j] >= min_len
                        ==> v < m@[j] || (v == m@[j] && k <= j)
            },
            None => forall|j: u64| #[trigger] m@.contains_key(j) ==> m@[j] < min_len,
        },
{
    let mut best: Option<(u64, u64)> = None;
    let iter = m.iter();
    let ghost s = iter.remaining();
    assert(forall|k: u64| #[trigger] m@.contains_key(k) ==> s.contains((&k, &m@[k])));
    for kv in it: iter
        invariant
            it.seq() == s,
            s.len() == m@.dom().len(),
            forall|i: int| 0 <= i < s.len() ==> m@.contains_key(*s[i].0) && m@[*s[i].0] == *s[i].1,
            forall|k: u64| #[trigger] m@.contains_key(k) ==> s.contains((&k, &m@[k])),
            vstd::std_specs::btree::increasing_seq(s.map_values(|kv: (&u64, &u64)| *kv.0)),
            match best {
                Some((k, v)) => {
                    &&& m@.contains_key(k)
                    &&& m@[k] == v
                    &&& v >= min_len
                    &&& exists|i: int| 0 <= i < it.index() && *s[i].0 == k
                    &&& forall|i: int| 0 <= i < it.index() && *s[i].1 >= min_len
                            ==> v < *s[i].1 || (v == *s[i].1 && k <= *s[i].0)
                },
                None => forall|i: int| 0 <= i < it.index() ==> *s[i].1 < min_len,
            },
    {
        let (k, v) = kv;
        proof {
            let incr = s.map_values(|kv: (&u64, &u64)| *kv.0);
            assert(kv == s[it.index() as int]);
            assert forall|i: int| 0 <= i < it.index() implies *s[i].0 < *k by {
                assert(incr[i] == *s[i].0);
                assert(incr[it.index() as int] == *k);
                lemma_increasing_keys(incr, i, it.index() as int);
            }
        }
        let better = match best {
            Some((_, bv)) => *v >= min_len && *v < bv,
            None => *v >= min_len,
        };
        if better {
            best = Some((*k, *v));
        }
    }
    proof {
        assert forall|j: u64| #[trigger] m@.contains_key(j) implies (match best {
            Some((k, v)) => m@[j] >= min_len ==> v < m@[j] || (v == m@[j] && k <= j),
            None => m@[j] < min_len,
        }) by {
            assert(s.contains((&j, &m@[j])));
            let i = choose|i: int| 0 <= i < s.len() && s[i] == (&j, &m@[j]);
            assert(*s[i].0 == j);
        }
    }
    best
}

} // verus!
