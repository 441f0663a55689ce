//! Association lists with unique string keys, used in place of a hash map:
//! the model of such a list is the finite map it denotes.

use vstd::prelude::*;
use vstd::string::StringExecFns;

use crate::text::str_eq;

verus! {

/// The map denoted by an association list; a later pair overrides an
/// earlier one with the same key.
pub open spec fn kv_map<V>(s: Seq<(Seq<char>, V)>) -> Map<Seq<char>, V>
    decreases s.len(),
{
    if s.len() == 0 {
        Map::empty()
    } else {
        kv_map(s.drop_last()).insert(s.last().0, s.last().1)
    }
}

/// No two pairs share a key.
pub open spec fn kv_unique<V>(s: Seq<(Seq<char>, V)>) -> bool {
    forall|i: int, j: int| 0 <= i < j < s.len() ==> s[i].0 != s[j].0
}

/// Appending a pair inserts it into the denoted map.
pub proof fn lemma_kv_map_push<V>(s: Seq<(Seq<char>, V)>, k: Seq<char>, v: V)
    ensures
        kv_map(s.push((k, v))) == kv_map(s).insert(k, v),
{
    assert(s.push((k, v)).drop_last() =~= s);
    assert(s.push((k, v)).last() == (k, v));
}

/// Removing a pair of a unique-keyed list splits the denoted map.
pub proof fn lemma_kv_map_remove<V>(s: Seq<(Seq<char>, V)>, i: int)
    requires
        0 <= i < s.len(),
        kv_unique(s),
    ensures
        kv_map(s) == kv_map(s.remove(i)).insert(s[i].0, s[i].1),
    decreases s.len(),
{
    if i == s.len() - 1 {
        assert(s.remove(i) =~= s.drop_last());
    } else {
        let dl = s.drop_last();
        assert(kv_unique(dl)) by {
            assert forall|x: int, y: int| 0 <= x < y < dl.len() implies dl[x].0 != dl[y].0 by {
                assert(dl[x] == s[x] && dl[y] == s[y]);
            }
        }
        lemma_kv_map_remove(dl, i);
        assert(s.remove(i).drop_last() =~= dl.remove(i));
        assert(s.remove(i).last() == s.last());
        assert(dl[i] == s[i]);
        assert(s[i].0 != s.last().0);
        assert(kv_map(dl.remove(i)).insert(s[i].0, s[i].1).insert(s.last().0, s.last().1) =~= kv_map(
            dl.remove(i),
        ).insert(s.last().0, s.last().1).insert(s[i].0, s[i].1));
    }
}

/// Inserts a pair into a unique-keyed association list, replacing the pair
/// with the same key if one is there: the denoted map gains exactly this
/// binding.
pub fn kv_insert<T: DeepView>(v: &mut Vec<(String, T)>, key: &str, value: T)
    requires
        kv_unique(old(v).deep_view()),
    ensures
        kv_unique(final(v).deep_view()),
        kv_map(final(v).deep_view()) == kv_map(old(v).deep_view()).insert(
            key@,
            value.deep_view(),
        ),
{
    let ghost s0 = old(v).deep_view();
    let n = v.len();
    proof {
        assert(s0.len() == n);
    }
    let mut i: usize = 0;
    let mut found = false;
    while i < n && !found
        invariant
            n == v@.len(),
            s0 == v.deep_view(),
            s0.len() == n,
            0 <= i <= n,
            !found ==> forall|j: int| 0 <= j < i ==> s0[j].0 != key@,
            found ==> i < n && s0[i as int].0 == key@,
        decreases n - i, (if found {
            0int
        } else {
            1int
        }),
    {
        if str_eq(v[i].0.as_str(), key) {
            proof {
                assert(s0[i as int].0 == v@[i as int].0@);
            }
            found = true;
        } else {
            i = i + 1;
        }
    }
    if found {
        v.remove(i);
        proof {
            assert(v.deep_view() =~= s0.remove(i as int));
            lemma_kv_map_remove(s0, i as int);
        }
    }
    let ghost s1 = v.deep_view();
    proof {
        if found {
            assert forall|j: int| 0 <= j < s1.len() implies s1[j].0 != key@ by {
                if j < i {
                    assert(s1[j] == s0[j]);
                } else {
                    assert(s1[j] == s0[j + 1]);
                }
            }
            assert(kv_unique(s1)) by {
                assert forall|x: int, y: int| 0 <= x < y < s1.len() implies s1[x].0 != s1[y].0 by {
                    let x0 = if x < i {
                        x
                    } else {
                        x + 1
                    };
                    let y0 = if y < i {
                        y
                    } else {
                        y + 1
                    };
                    assert(s1[x] == s0[x0] && s1[y] == s0[y0]);
                }
            }
        } else {
            assert(s1 == s0);
        }
    }
    v.push((key.to_owned(), value));
    proof {
        assert(v.deep_view() =~= s1.push((key@, value.deep_view())));
        lemma_kv_map_push(s1, key@, value.deep_view());
        if found {
            assert(kv_map(s1).insert(key@, value.deep_view()) =~= kv_map(s0).insert(
                key@,
                value.deep_view(),
            ));
        }
        let s2 = s1.push((key@, value.deep_view()));
        assert(kv_unique(s2)) by {
            assert forall|x: int, y: int| 0 <= x < y < s2.len() implies s2[x].0 != s2[y].0 by {
                if y < s2.len() - 1 {
                    assert(s2[x] == s1[x] && s2[y] == s1[y]);
                } else {
                    assert(s2[x] == s1[x] && s2[y].0 == key@);
                }
            }
        }
    }
}

} // verus!
