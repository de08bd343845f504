//! Grouping a list of names into distinct names with their counts, in name
//! order (what the album, artist and folder lists show).

use vstd::prelude::*;
use crate::text::lex_lt;
use crate::text::lex_less;
use crate::text::chars_of;
use crate::text::lemma_lex_total;
use crate::text::lemma_lex_transitive;
use crate::text::lemma_lex_irreflexive;

verus! {

/// How often `k` occurs in `s`.
pub open spec fn count_occ(s: Seq<Seq<char>>, k: Seq<char>) -> nat
    decreases s.len(),
{
    if s.len() == 0 {
        0
    } else {
        count_occ(s.drop_last(), k) + (if s.last() == k { 1nat } else { 0nat })
    }
}

pub open spec fn names_of(v: Seq<String>) -> Seq<Seq<char>> {
    v.map_values(|s: String| s@)
}

/// `entries` lists each distinct name of `keys` once, in strictly ascending
/// name order, with the number of times it occurs.
pub open spec fn is_grouping(keys: Seq<Seq<char>>, entries: Seq<(String, usize)>) -> bool {
    &&& forall|i: int, j: int| 0 <= i < j < entries.len() ==> lex_lt(#[trigger] entries[i].0@, #[trigger] entries[j].0@)
    &&& forall|i: int| 0 <= i < entries.len() ==> #[trigger] entries[i].1 == count_occ(keys, entries[i].0@)
        && entries[i].1 > 0
    &&& forall|k: int| 0 <= k < keys.len() ==> exists|i: int| 0 <= i < entries.len() && #[trigger] entries[i].0@ == #[trigger] keys[k]
}

proof fn lemma_count_step(s: Seq<Seq<char>>, i: int, k: Seq<char>)
    requires
        0 <= i < s.len(),
    ensures
        count_occ(s.take(i + 1), k) == count_occ(s.take(i), k) + (if s[i] == k { 1nat } else { 0nat }),
{
    assert(s.take(i + 1).drop_last() =~= s.take(i));
}

/// Groups `keys` (see `is_grouping`).
pub fn group_counts(keys: &Vec<String>) -> (r: Vec<(String, usize)>)
    ensures
        is_grouping(names_of(keys@), r@),
{
    let ghost ks = names_of(keys@);
    let mut entries: Vec<(String, usize)> = Vec::new();
    let mut i: usize = 0;
    while i < keys.len()
        invariant
            ks == names_of(keys@),
            i <= keys@.len(),
            entries@.len() <= i,
            is_grouping(ks.take(i as int), entries@),
        decreases keys@.len() - i,
    {
        let x = chars_of(keys[i].as_str());
        let ghost pre = ks.take(i as int);
        let ghost post = ks.take(i + 1);
        proof {
            assert(ks[i as int] == x@);
            assert forall|k: Seq<char>| #![auto] count_occ(post, k) == count_occ(pre, k) + (if ks[i as int] == k { 1nat } else { 0nat }) by {
                lemma_count_step(ks, i as int, k);
            }
        }
        let mut p: usize = 0;
        while p < entries.len() && lex_less(chars_of(entries[p].0.as_str()).as_slice(), x.as_slice())
            invariant
                p <= entries@.len(),
                forall|q: int| 0 <= q < p ==> lex_lt(#[trigger] entries@[q].0@, x@),
            decreases entries@.len() - p,
        {
            p = p + 1;
        }
        let found = p < entries.len() && entries[p].0.eq(&keys[i]);
        if found {
            let c = entries[p].1;
            proof {
                lemma_count_le_len(pre, entries@[p as int].0@);
            }
            let name = entries[p].0.clone();
            let ghost e0 = entries@;
            entries.set(p, (name, c + 1));
            proof {
                assert forall|a: int| 0 <= a < entries@.len() implies #[trigger] entries@[a].1 == count_occ(post, entries@[a].0@)
                    && entries@[a].1 > 0 by {
                    if a != p {
                        assert(entries@[a] == e0[a]);
                        if e0[a].0@ == x@ {
                            if a < p {
                                lemma_lex_irreflexive(x@);
                            } else {
                                lemma_lex_irreflexive(x@);
                                assert(lex_lt(e0[p as int].0@, e0[a].0@));
                            }
                        }
                    }
                }
                assert forall|k: int| 0 <= k < post.len() implies exists|a: int| 0 <= a < entries@.len() && #[trigger] entries@[a].0@ == #[trigger] post[k] by {
                    if k < i {
                        assert(post[k] == pre[k]);
                        let a = choose|a: int| 0 <= a < e0.len() && #[trigger] e0[a].0@ == #[trigger] pre[k];
                        assert(entries@[a].0@ == post[k]);
                    } else {
                        assert(entries@[p as int].0@ == post[k]);
                    }
                }
                assert forall|a: int, b: int| 0 <= a < b < entries@.len() implies lex_lt(#[trigger] entries@[a].0@, #[trigger] entries@[b].0@) by {
                    assert(entries@[a].0@ == e0[a].0@ && entries@[b].0@ == e0[b].0@);
                }
            }
        } else {
            let ghost e0 = entries@;
            proof {
                if p < e0.len() {
                    // The entry at p is not below x and differs from it, so it is above.
                    assert(!lex_lt(e0[p as int].0@, x@));
                    assert(e0[p as int].0@ != x@);
                    if !lex_lt(x@, e0[p as int].0@) {
                        lemma_lex_total(x@, e0[p as int].0@);
                    }
                }
                assert forall|a: int| 0 <= a < e0.len() implies #[trigger] e0[a].0@ != x@ by {
                    if e0[a].0@ == x@ {
                        if a < p {
                            lemma_lex_irreflexive(x@);
                        } else if a == p {
                        } else {
                            lemma_lex_transitive(x@, e0[p as int].0@, e0[a].0@);
                            lemma_lex_irreflexive(x@);
                        }
                    }
                }
            }
            entries.insert(p, (keys[i].clone(), 1));
            proof {
                let e1 = entries@;
                assert forall|a: int| 0 <= a < e1.len() implies #[trigger] e1[a].1 == count_occ(post, e1[a].0@)
                    && e1[a].1 > 0 by {
                    if a < p {
                        assert(e1[a] == e0[a]);
                    } else if a > p {
                        assert(e1[a] == e0[a - 1]);
                    } else {
                        assert(e1[a].0@ == x@);
                        // x did not occur before.
                        if count_occ(pre, x@) > 0 {
                            lemma_count_pos_has_index(pre, x@);
                            let k = choose|k: int| 0 <= k < pre.len() && pre[k] == x@;
                            let b = choose|b: int| 0 <= b < e0.len() && #[trigger] e0[b].0@ == #[trigger] pre[k];
                        }
                    }
                }
                assert forall|k: int| 0 <= k < post.len() implies exists|a: int| 0 <= a < e1.len() && #[trigger] e1[a].0@ == #[trigger] post[k] by {
                    if k < i {
                        assert(post[k] == pre[k]);
                        let b = choose|b: int| 0 <= b < e0.len() && #[trigger] e0[b].0@ == #[trigger] pre[k];
                        if b < p {
                            assert(e1[b] == e0[b]);
                        } else {
                            assert(e1[b + 1] == e0[b]);
                        }
                    } else {
                        assert(e1[p as int].0@ == post[k]);
                    }
                }
                assert forall|a: int, b: int| 0 <= a < b < e1.len() implies lex_lt(#[trigger] e1[a].0@, #[trigger] e1[b].0@) by {
                    if b < p {
                        assert(e1[a] == e0[a] && e1[b] == e0[b]);
                    } else if b == p {
                        assert(e1[a] == e0[a]);
                    } else if a < p {
                        assert(e1[a] == e0[a] && e1[b] == e0[b - 1]);
                        lemma_lex_transitive(e0[a].0@, x@, e0[p as int].0@);
                        if b - 1 > p {
                            lemma_lex_transitive(e0[a].0@, e0[p as int].0@, e0[b - 1].0@);
                        }
                    } else if a == p {
                        assert(e1[b] == e0[b - 1]);
                        if b - 1 > p {
                            lemma_lex_transitive(x@, e0[p as int].0@, e0[b - 1].0@);
                        }
                    } else {
                        assert(e1[a] == e0[a - 1] && e1[b] == e0[b - 1]);
                    }
                }
            }
        }
        i = i + 1;
    }
    assert(ks.take(keys@.len() as int) =~= ks);
    entries
}

proof fn lemma_count_le_len(s: Seq<Seq<char>>, k: Seq<char>)
    ensures
        count_occ(s, k) <= s.len(),
    decreases s.len(),
{
    if s.len() > 0 {
        lemma_count_le_len(s.drop_last(), k);
    }
}

/// A name counted at least once occurs at some index.
pub proof fn lemma_count_pos_has_index(s: Seq<Seq<char>>, k: Seq<char>)
    requires
        count_occ(s, k) > 0,
    ensures
        exists|j: int| 0 <= j < s.len() && s[j] == k,
    decreases s.len(),
{
    if s.last() == k {
        assert(s[s.len() - 1] == k);
    } else {
        lemma_count_pos_has_index(s.drop_last(), k);
        let j = choose|j: int| 0 <= j < s.drop_last().len() && s.drop_last()[j] == k;
        assert(s[j] == k);
    }
}

} // verus!
