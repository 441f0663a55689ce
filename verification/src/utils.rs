//! Splitting a `/`-separated path around a named component.

use vstd::prelude::*;
use vstd::string::StrSliceExecFns;

verus! {

/// End of the path component that starts at `i`: the position of the first
/// `/` at or after `i`, or the end of the path.
pub open spec fn comp_end(s: Seq<char>, i: int) -> int
    decreases s.len() - i when 0 <= i <= s.len()
{
    if i >= s.len() {
        s.len() as int
    } else if s[i] == '/' {
        i
    } else {
        comp_end(s, i + 1)
    }
}

/// `i` starts a (non-empty) path component.
pub open spec fn is_comp_start(s: Seq<char>, i: int) -> bool {
    0 <= i < s.len() && s[i] != '/' && (i == 0 || s[i - 1] == '/')
}

/// The component starting at `i` is exactly `t`.
pub open spec fn comp_matches(s: Seq<char>, t: Seq<char>, i: int) -> bool {
    is_comp_start(s, i) && s.subrange(i, comp_end(s, i)) == t
}

proof fn lemma_comp_end_agrees(s: Seq<char>, i: int, j: int)
    requires
        0 <= i <= j <= s.len(),
        forall|k: int| i <= k < j ==> s[k] != '/',
        j < s.len() ==> s[j] == '/',
    ensures
        comp_end(s, i) == j,
    decreases j - i,
{
    if i < j {
        lemma_comp_end_agrees(s, i + 1, j);
    }
}

/// Splits a `/`-separated path in two around the first component equal to
/// `target`: the first part runs up to and including that component, the
/// second holds what follows the separator after it.  `None` when no
/// component matches.
pub fn split_path_inclusive(path: &str, target: &str) -> (r: Option<(String, String)>)
    ensures
        match r {
            Some(pair) => exists|i: int|
                {
                    &&& #[trigger] comp_matches(path@, target@, i)
                    &&& forall|j: int| 0 <= j < i ==> !comp_matches(path@, target@, j)
                    &&& pair.0@ == path@.subrange(0, comp_end(path@, i))
                    &&& pair.1@ == (if comp_end(path@, i) < path@.len() {
                        path@.subrange(comp_end(path@, i) + 1, path@.len() as int)
                    } else {
                        Seq::<char>::empty()
                    })
                },
            None => forall|j: int| !comp_matches(path@, target@, j),
        },
{
    let n = path.unicode_len();
    let mut i: usize = 0;
    while i < n
        invariant
            n == path@.len(),
            0 <= i <= n,
            forall|j: int| 0 <= j < i ==> !comp_matches(path@, target@, j),
            0 < i < n ==> (path@[i - 1] == '/' || path@[i as int] == '/'),
        decreases n - i,
    {
        if path.get_char(i) == '/' {
            i = i + 1;
        } else {
            let mut j = i;
            while j < n && path.get_char(j) != '/'
                invariant
                    n == path@.len(),
                    i <= j <= n,
                    forall|k: int| i <= k < j ==> path@[k] != '/',
                decreases n - j,
            {
                j = j + 1;
            }
            proof {
                lemma_comp_end_agrees(path@, i as int, j as int);
            }
            let seg = path.substring_char(i, j);
            if crate::text::str_eq(seg, target) {
                let first = path.substring_char(0, j).to_owned();
                let second = if j < n {
                    path.substring_char(j + 1, n).to_owned()
                } else {
                    String::new()
                };
                proof {
                    assert(comp_matches(path@, target@, i as int));
                }
                return Some((first, second));
            }
            proof {
                assert(!comp_matches(path@, target@, i as int));
                assert forall|k: int| i < k <= j implies !comp_matches(path@, target@, k) by {
                    if k < j {
                        assert(path@[k - 1] != '/');
                    } else if k < n {
                        assert(path@[k] == '/');
                    }
                }
            }
            i = j;
        }
    }
    proof {
        assert forall|j: int| !comp_matches(path@, target@, j) by {
            if 0 <= j < n {
            }
        }
    }
    None
}

} // verus!
