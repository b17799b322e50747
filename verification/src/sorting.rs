//! Sorted, duplicate-free lists of texts.
use vstd::prelude::*;

use crate::order::{
    lemma_text_lt_irreflexive, lemma_text_lt_total, lemma_text_lt_transitive, text_less, text_lt,
};
use crate::text::chars_of;

verus! {

/// Texts in strictly increasing order (which rules out duplicates).
pub open spec fn strictly_sorted(s: Seq<Seq<char>>) -> bool {
    forall|i: int, j: int| 0 <= i < j < s.len() ==> text_lt(#[trigger] s[i], #[trigger] s[j])
}

pub proof fn lemma_contains_push(s: Seq<Seq<char>>, a: Seq<char>, x: Seq<char>)
    ensures
        s.push(a).contains(x) <==> (s.contains(x) || x == a),
{
    if s.push(a).contains(x) {
        let k = choose|k: int| 0 <= k < s.push(a).len() && s.push(a)[k] == x;
        if k < s.len() {
            assert(s[k] == x);
        }
    }
    if s.contains(x) {
        let k = choose|k: int| 0 <= k < s.len() && s[k] == x;
        assert(s.push(a)[k] == x);
    }
    if x == a {
        assert(s.push(a)[s.len() as int] == x);
    }
}

pub open spec fn texts_of(v: Seq<&str>) -> Seq<Seq<char>> {
    v.map_values(|x: &str| x@)
}

/// The texts of `v` sorted, each once (`sort_unstable` followed by `dedup`).
pub fn sorted_unique<'a>(v: &Vec<&'a str>) -> (r: Vec<&'a str>)
    ensures
        strictly_sorted(texts_of(r@)),
        forall|x: Seq<char>| texts_of(r@).contains(x) <==> texts_of(v@).contains(x),
{
    let mut r: Vec<&'a str> = Vec::new();
    let mut i: usize = 0;
    while i < v.len()
        invariant
            i <= v@.len(),
            strictly_sorted(texts_of(r@)),
            forall|x: Seq<char>|
                texts_of(r@).contains(x) <==> texts_of(v@.take(i as int)).contains(x),
        decreases v@.len() - i,
    {
        let item = v[i];
        let c = chars_of(item);
        let ghost t = texts_of(r@);
        let mut j: usize = 0;
        while j < r.len() && text_less(chars_of(r[j]).as_slice(), c.as_slice())
            invariant
                t == texts_of(r@),
                c@ == item@,
                j <= r@.len(),
                forall|k: int| 0 <= k < j ==> text_lt(#[trigger] t[k], item@),
            decreases r@.len() - j,
        {
            j = j + 1;
        }
        let dup = j < r.len() && crate::order::chars_equal(chars_of(r[j]).as_slice(), c.as_slice());
        proof {
            assert(v@.take(i + 1) =~= v@.take(i as int).push(item));
            assert(texts_of(v@.take(i + 1)) =~= texts_of(v@.take(i as int)).push(item@));
        }
        if !dup {
            proof {
                if j < t.len() {
                    lemma_text_lt_total(t[j as int], item@);
                }
                assert forall|k: int| j <= k < t.len() implies text_lt(item@, #[trigger] t[k]) by {
                    if k > j {
                        lemma_text_lt_transitive(item@, t[j as int], t[k]);
                    }
                }
            }
            r.insert(j, item);
            proof {
                let u = texts_of(r@);
                assert(u =~= t.insert(j as int, item@));
                assert forall|a: int, b: int| 0 <= a < b < u.len() implies text_lt(
                    #[trigger] u[a],
                    #[trigger] u[b],
                ) by {
                    if b == j {
                        assert(u[a] == t[a]);
                    } else if a == j {
                        assert(u[b] == t[b - 1]);
                        if b - 1 > j {
                            lemma_text_lt_transitive(item@, t[j as int], t[b - 1]);
                        }
                    } else if a < j && b > j {
                        assert(u[a] == t[a]);
                        assert(u[b] == t[b - 1]);
                        lemma_text_lt_transitive(t[a], item@, t[b - 1]);
                    } else if a < j {
                        assert(u[a] == t[a]);
                        assert(u[b] == t[b]);
                    } else {
                        assert(u[a] == t[a - 1]);
                        assert(u[b] == t[b - 1]);
                    }
                }
                assert forall|x: Seq<char>| u.contains(x) <==> texts_of(v@.take(i + 1)).contains(
                    x,
                ) by {
                    lemma_contains_push(texts_of(v@.take(i as int)), item@, x);
                    if u.contains(x) {
                        let k = choose|k: int| 0 <= k < u.len() && u[k] == x;
                        if k < j {
                            assert(t[k] == x);
                            assert(t.contains(x));
                        } else if k > j {
                            assert(t[k - 1] == x);
                            assert(t.contains(x));
                        }
                    }
                    if t.contains(x) {
                        let k = choose|k: int| 0 <= k < t.len() && t[k] == x;
                        if k < j {
                            assert(u[k] == x);
                        } else {
                            assert(u[k + 1] == x);
                        }
                    }
                    if x == item@ {
                        assert(u[j as int] == x);
                    }
                }
            }
        } else {
            proof {
                assert(t[j as int] == item@);
                assert forall|x: Seq<char>| t.contains(x) <==> texts_of(v@.take(i + 1)).contains(
                    x,
                ) by {
                    lemma_contains_push(texts_of(v@.take(i as int)), item@, x);
                    if x == item@ {
                        assert(t.contains(x));
                    }
                }
            }
        }
        i = i + 1;
    }
    proof {
        assert(v@.take(i as int) =~= v@);
    }
    r
}

} // verus!
