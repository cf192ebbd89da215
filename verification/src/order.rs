//! The order of strings, sorting, and grouping by a string key.
use vstd::prelude::*;

use crate::config::str_eq;
use crate::text::chars_of;

verus! {

broadcast use vstd::seq_lib::group_to_multiset_ensures;

/// `a` sorts strictly before `b`: character by character, a proper prefix first. This is
/// the order of `String` (its bytes in UTF-8 are ordered as the characters are).
pub open spec fn lex_lt(a: Seq<char>, b: Seq<char>) -> bool
    decreases a.len(),
{
    if a.len() == 0 {
        b.len() > 0
    } else if b.len() == 0 {
        false
    } else if a[0] != b[0] {
        (a[0] as int) < (b[0] as int)
    } else {
        lex_lt(a.subrange(1, a.len() as int), b.subrange(1, b.len() as int))
    }
}

/// `a` sorts before `b` or equals it.
pub open spec fn lex_le(a: Seq<char>, b: Seq<char>) -> bool {
    !lex_lt(b, a)
}

pub proof fn lemma_lex_irreflexive(a: Seq<char>)
    ensures
        !lex_lt(a, a),
    decreases a.len(),
{
    if a.len() > 0 {
        lemma_lex_irreflexive(a.subrange(1, a.len() as int));
    }
}

pub proof fn lemma_lex_total(a: Seq<char>, b: Seq<char>)
    ensures
        a == b || lex_lt(a, b) || lex_lt(b, a),
        !(lex_lt(a, b) && lex_lt(b, a)),
    decreases a.len(),
{
    if a.len() > 0 && b.len() > 0 && a[0] == b[0] {
        let ta = a.subrange(1, a.len() as int);
        let tb = b.subrange(1, b.len() as int);
        lemma_lex_total(ta, tb);
        if ta == tb {
            assert(a =~= seq![a[0]] + ta);
            assert(b =~= seq![b[0]] + tb);
        }
    } else if a.len() == 0 && b.len() == 0 {
        assert(a =~= b);
    }
}

pub proof fn lemma_lex_trans(a: Seq<char>, b: Seq<char>, c: Seq<char>)
    requires
        lex_lt(a, b),
        lex_lt(b, c),
    ensures
        lex_lt(a, c),
    decreases a.len(),
{
    if a.len() > 0 && a[0] == b[0] && b[0] == c[0] {
        lemma_lex_trans(
            a.subrange(1, a.len() as int),
            b.subrange(1, b.len() as int),
            c.subrange(1, c.len() as int),
        );
    }
}

/// `a < b` then `b <= c` gives `a < c`.
pub proof fn lemma_lex_lt_le(a: Seq<char>, b: Seq<char>, c: Seq<char>)
    requires
        lex_lt(a, b),
        lex_le(b, c),
    ensures
        lex_lt(a, c),
{
    lemma_lex_total(b, c);
    if b != c {
        lemma_lex_trans(a, b, c);
    }
}

/// `a < b` for strings.
pub fn str_less(a: &str, b: &str) -> (r: bool)
    ensures
        r == lex_lt(a@, b@),
{
    let ca = chars_of(a);
    let cb = chars_of(b);
    let mut i: usize = 0;
    assert(a@.subrange(0, a@.len() as int) =~= a@);
    assert(b@.subrange(0, b@.len() as int) =~= b@);
    while i < ca.len() && i < cb.len()
        invariant
            ca@ == a@,
            cb@ == b@,
            i <= ca.len(),
            i <= cb.len(),
            lex_lt(a@, b@) == lex_lt(a@.subrange(i as int, a@.len() as int), b@.subrange(i as int, b@.len() as int)),
        decreases ca.len() - i,
    {
        let ghost sa = a@.subrange(i as int, a@.len() as int);
        let ghost sb = b@.subrange(i as int, b@.len() as int);
        assert(sa[0] == ca@[i as int]);
        assert(sb[0] == cb@[i as int]);
        if ca[i] != cb[i] {
            return ca[i] < cb[i];
        }
        assert(sa.subrange(1, sa.len() as int) =~= a@.subrange(i + 1, a@.len() as int));
        assert(sb.subrange(1, sb.len() as int) =~= b@.subrange(i + 1, b@.len() as int));
        i = i + 1;
    }
    i < cb.len()
}

/// Every element sorts before or equals every later one.
pub open spec fn is_sorted(s: Seq<Seq<char>>) -> bool {
    forall|i: int, j: int| 0 <= i < j < s.len() ==> lex_le(#[trigger] s[i], #[trigger] s[j])
}

/// The strings of `v` in ascending order.
pub fn sort_strings(v: Vec<String>) -> (r: Vec<String>)
    ensures
        is_sorted(r.deep_view()),
        r.deep_view().to_multiset() == v.deep_view().to_multiset(),
{
    let mut out: Vec<String> = Vec::new();
    let mut src = v;
    let ghost all = src.deep_view();
    assert(out.deep_view() =~= Seq::<Seq<char>>::empty());
    assert(all.subrange(0, 0) =~= Seq::<Seq<char>>::empty());
    let n = src.len();
    let mut i: usize = 0;
    while i < n
        invariant
            n == src.len(),
            all == src.deep_view(),
            i <= n,
            is_sorted(out.deep_view()),
            out.deep_view().to_multiset() == all.subrange(0, i as int).to_multiset(),
        decreases n - i,
    {
        let x = src[i].as_str();
        let mut j: usize = 0;
        while j < out.len() && !str_less(x, out[j].as_str())
            invariant
                j <= out.len(),
                forall|k: int| 0 <= k < j ==> lex_le(#[trigger] out.deep_view()[k], x@),
            decreases out.len() - j,
        {
            j = j + 1;
        }
        let ghost old_out = out.deep_view();
        out.insert(j, crate::text::copy_str(x));
        let ghost new_out = out.deep_view();
        assert(new_out =~= old_out.insert(j as int, x@));
        proof {
            old_out.insert_ensures(j as int, x@);
            assert forall|a: int, b: int| 0 <= a < b < new_out.len() implies lex_le(#[trigger] new_out[a], #[trigger] new_out[b]) by {
                if b < j {
                } else if b == j {
                } else if a < j {
                    // a < j < b: new_out[a] <= x < old_out[j] <= new_out[b], or x is last
                    lemma_lex_total(new_out[a], x@);
                    if j < old_out.len() {
                        assert(lex_lt(x@, old_out[j as int]));
                        assert(new_out[b] == old_out[b - 1]);
                        if b - 1 > j {
                            assert(lex_le(old_out[j as int], old_out[b - 1]));
                        } else {
                            lemma_lex_irreflexive(old_out[j as int]);
                        }
                        assert(lex_le(old_out[j as int], new_out[b]));
                        lemma_lex_lt_le(x@, old_out[j as int], new_out[b]);
                        lemma_lex_total(x@, new_out[b]);
                        if lex_lt(new_out[b], new_out[a]) {
                            lemma_lex_total(new_out[a], x@);
                            if new_out[a] == x@ {
                            } else {
                                lemma_lex_trans(new_out[b], new_out[a], x@);
                            }
                        }
                    }
                } else if a == j {
                    assert(lex_lt(x@, old_out[j as int]));
                    assert(new_out[b] == old_out[b - 1]);
                    if b - 1 > j {
                        assert(lex_le(old_out[j as int], old_out[b - 1]));
                    } else {
                        lemma_lex_irreflexive(old_out[j as int]);
                    }
                    assert(lex_le(old_out[j as int], new_out[b]));
                    lemma_lex_lt_le(x@, old_out[j as int], new_out[b]);
                    lemma_lex_total(x@, new_out[b]);
                } else {
                }
            }
            assert(all.subrange(0, i + 1) =~= all.subrange(0, i as int).push(x@));
        }
        i = i + 1;
    }
    assert(all.subrange(0, n as int) =~= all);
    out
}

/// The positions of `keys` holding `k`, in order.
pub open spec fn indices_with_key(keys: Seq<Option<Seq<char>>>, k: Seq<char>) -> Seq<usize>
    decreases keys.len(),
{
    if keys.len() == 0 {
        Seq::empty()
    } else {
        let prev = indices_with_key(keys.drop_last(), k);
        if keys.last() == Some(k) {
            prev.push((keys.len() - 1) as usize)
        } else {
            prev
        }
    }
}

/// `group_keys` are the distinct keys of `keys` in ascending order, and `members[g]`
/// lists the positions that hold `group_keys[g]`, in order; positions without a key
/// belong to no group.
pub open spec fn is_grouping(keys: Seq<Option<Seq<char>>>, group_keys: Seq<Seq<char>>, members: Seq<Seq<usize>>) -> bool {
    &&& group_keys.len() == members.len()
    &&& forall|a: int, b: int| 0 <= a < b < group_keys.len() ==> lex_lt(#[trigger] group_keys[a], #[trigger] group_keys[b])
    &&& forall|g: int| 0 <= g < group_keys.len() ==> #[trigger] members[g] == indices_with_key(keys, group_keys[g])
    &&& forall|g: int| 0 <= g < group_keys.len() ==> (#[trigger] members[g]).len() > 0
    &&& forall|t: int| 0 <= t < keys.len() && (#[trigger] keys[t]) is Some ==> exists|g: int| 0 <= g < group_keys.len() && group_keys[g] == keys[t]->0
}

proof fn lemma_indices_absent(keys: Seq<Option<Seq<char>>>, k: Seq<char>)
    requires
        forall|t: int| 0 <= t < keys.len() ==> keys[t] != Some(k),
    ensures
        indices_with_key(keys, k) == Seq::<usize>::empty(),
    decreases keys.len(),
{
    if keys.len() > 0 {
        lemma_indices_absent(keys.drop_last(), k);
    }
}

proof fn lemma_indices_step(keys: Seq<Option<Seq<char>>>, i: int, k: Seq<char>)
    requires
        0 <= i < keys.len(),
    ensures
        indices_with_key(keys.take(i + 1), k) == if keys[i] == Some(k) {
            indices_with_key(keys.take(i), k).push(i as usize)
        } else {
            indices_with_key(keys.take(i), k)
        },
{
    assert(keys.take(i + 1).drop_last() =~= keys.take(i));
}

/// The position lists of a grouping.
pub open spec fn members_view(v: Seq<Vec<usize>>) -> Seq<Seq<usize>> {
    v.map_values(|m: Vec<usize>| m@)
}

/// Groups the positions of `keys` by key, in ascending order of key.
pub fn group_by_key(keys: &Vec<Option<String>>) -> (r: (Vec<String>, Vec<Vec<usize>>))
    ensures
        is_grouping(keys.deep_view(), r.0.deep_view(), members_view(r.1@)),
{
    let ghost kv = keys.deep_view();
    let mut gk: Vec<String> = Vec::new();
    let mut gm: Vec<Vec<usize>> = Vec::new();
    let mut i: usize = 0;
    assert(gk.deep_view() =~= Seq::<Seq<char>>::empty());
    assert(members_view(gm@) =~= Seq::<Seq<usize>>::empty());
    while i < keys.len()
        invariant
            kv == keys.deep_view(),
            i <= keys.len(),
            is_grouping(kv.take(i as int), gk.deep_view(), members_view(gm@)),
        decreases keys.len() - i,
    {
        let ghost pk = kv.take(i as int);
        let ghost nk = kv.take(i + 1);
        let ghost gkv = gk.deep_view();
        let ghost gmv = members_view(gm@);
        let ghost gm0 = gm@;
        proof {
            assert forall|g: int| 0 <= g < gkv.len() implies #[trigger] indices_with_key(nk, gkv[g]) == if kv[i as int]
                == Some(gkv[g]) {
                indices_with_key(pk, gkv[g]).push(i as usize)
            } else {
                indices_with_key(pk, gkv[g])
            } by {
                lemma_indices_step(kv, i as int, gkv[g]);
            }
        }
        match &keys[i] {
            None => {
                assert forall|t: int| 0 <= t < nk.len() && (#[trigger] nk[t]) is Some implies exists|g: int|
                    0 <= g < gkv.len() && gkv[g] == nk[t]->0 by {
                    assert(pk[t] == nk[t]);
                }
            },
            Some(k) => {
                assert(kv[i as int] == Some(k@));
                // look for the group of `k`
                let mut j: usize = 0;
                while j < gk.len() && !str_eq(gk[j].as_str(), k.as_str())
                    invariant
                        gkv == gk.deep_view(),
                        j <= gk.len(),
                        forall|q: int| 0 <= q < j ==> gkv[q] != k@,
                    decreases gk.len() - j,
                {
                    j = j + 1;
                }
                if j < gk.len() {
                    let mut m = gm.remove(j);
                    m.push(i);
                    gm.insert(j, m);
                    proof {
                        assert(gm@ =~= gm0.update(j as int, m));
                        assert(members_view(gm@) =~= gmv.update(j as int, gmv[j as int].push(i as usize)));
                        assert forall|a: int, b: int| 0 <= a < b < gkv.len() && gkv[a] == gkv[b] implies false by {
                            lemma_lex_irreflexive(gkv[a]);
                        }
                        assert forall|t: int| 0 <= t < nk.len() && (#[trigger] nk[t]) is Some implies exists|g: int|
                            0 <= g < gkv.len() && gkv[g] == nk[t]->0 by {
                            if t < i {
                                assert(pk[t] == nk[t]);
                            } else {
                                assert(gkv[j as int] == nk[t]->0);
                            }
                        }
                    }
                } else {
                    // new group, at its place in key order
                    let mut p: usize = 0;
                    while p < gk.len() && str_less(gk[p].as_str(), k.as_str())
                        invariant
                            gkv == gk.deep_view(),
                            p <= gk.len(),
                            forall|q: int| 0 <= q < p ==> lex_lt(#[trigger] gkv[q], k@),
                        decreases gk.len() - p,
                    {
                        p = p + 1;
                    }
                    let mut m: Vec<usize> = Vec::new();
                    m.push(i);
                    gk.insert(p, crate::text::copy_str(k.as_str()));
                    gm.insert(p, m);
                    proof {
                        assert(gk.deep_view() =~= gkv.insert(p as int, k@));
                        assert(members_view(gm@) =~= gmv.insert(p as int, seq![i as usize]));
                        gkv.insert_ensures(p as int, k@);
                        gmv.insert_ensures(p as int, seq![i as usize]);
                        assert forall|t: int| 0 <= t < pk.len() implies pk[t] != Some(k@) by {
                            if pk[t] == Some(k@) {
                                assert(pk[t] is Some);
                            }
                        }
                        lemma_indices_absent(pk, k@);
                        lemma_indices_step(kv, i as int, k@);
                        assert(seq![i as usize] =~= Seq::<usize>::empty().push(i as usize));
                        let ngk = gk.deep_view();
                        assert forall|a: int, b: int| 0 <= a < b < ngk.len() implies lex_lt(#[trigger] ngk[a], #[trigger] ngk[b]) by {
                            if b < p {
                            } else if b == p {
                            } else if a < p {
                                if p < gkv.len() {
                                    lemma_lex_total(k@, gkv[p as int]);
                                    lemma_lex_trans(ngk[a], k@, gkv[p as int]);
                                    if (b - 1) > p {
                                        lemma_lex_trans(ngk[a], gkv[p as int], ngk[b]);
                                    }
                                }
                            } else if a == p {
                                lemma_lex_total(k@, gkv[p as int]);
                                if (b - 1) > p {
                                    lemma_lex_trans(k@, gkv[p as int], ngk[b]);
                                }
                            } else {
                            }
                        }
                        assert forall|t: int| 0 <= t < nk.len() && (#[trigger] nk[t]) is Some implies exists|g: int|
                            0 <= g < ngk.len() && ngk[g] == nk[t]->0 by {
                            if t < i {
                                assert(pk[t] == nk[t]);
                                let g0 = choose|g: int| 0 <= g < gkv.len() && gkv[g] == pk[t]->0;
                                if g0 < p {
                                    assert(ngk[g0] == gkv[g0]);
                                } else {
                                    assert(ngk[g0 + 1] == gkv[g0]);
                                }
                            } else {
                                assert(ngk[p as int] == nk[t]->0);
                            }
                        }
                        let ngm = members_view(gm@);
                        assert forall|g: int| 0 <= g < ngk.len() implies #[trigger] ngm[g] == indices_with_key(nk, ngk[g]) by {
                            if g < p {
                                assert(ngk[g] == gkv[g]);
                                assert(lex_lt(gkv[g], k@));
                                assert(ngk[g] != k@) by { lemma_lex_irreflexive(k@); }
                                assert(ngm[g] == gmv[g]);
                            } else if g == p {
                            } else {
                                assert(ngk[g] == gkv[g - 1]);
                                assert(ngm[g] == gmv[g - 1]);
                                assert(gkv[g - 1] != k@);
                            }
                        }
                    }
                }
            },
        }
        i = i + 1;
    }
    assert(kv.take(keys.len() as int) =~= kv);
    (gk, gm)
}

} // verus!
