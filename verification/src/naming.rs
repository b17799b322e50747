//! The order in which a folder's files are listed: natural order of their
//! names (`lexical-sort`), so that `img2` comes before `img10`.
use vstd::prelude::*;

use crate::order::{lemma_text_lt_asymmetric, lemma_text_lt_irreflexive, lemma_text_lt_total, text_lt};

verus! {

/// A character that can extend a run of digits once names are transliterated:
/// an ASCII digit, or any non-ASCII character.
pub open spec fn run_char(c: char) -> bool {
    ('0' <= c && c <= '9') || (c as u32) >= 128
}

/// The most digits a character can contribute to such a run: one for an
/// ASCII digit and ten for a non-ASCII character, the longest run of digits
/// that `any_ascii` transliterates a single character to.
pub open spec fn run_weight(c: char) -> int {
    if '0' <= c && c <= '9' {
        1
    } else if (c as u32) >= 128 {
        10
    } else {
        0
    }
}

pub open spec fn weight_sum(s: Seq<char>) -> int
    decreases s.len(),
{
    if s.len() == 0 {
        0
    } else {
        weight_sum(s.drop_last()) + run_weight(s.last())
    }
}

/// All characters of `s` from `i` to `j` can extend a run of digits.
pub open spec fn all_run(s: Seq<char>, i: int, j: int) -> bool {
    forall|k: int| i <= k < j ==> run_char(#[trigger] s[k])
}

/// No run of digits in the transliteration of `s` is longer than 19 digits,
/// so that the number it reads as fits in a `u64`.
pub open spec fn natural_safe(s: Seq<char>) -> bool {
    forall|i: int, j: int|
        0 <= i <= j <= s.len() && all_run(s, i, j) ==> #[trigger] weight_sum(s.subrange(i, j)) <= 19
}

proof fn lemma_weight_nonneg(s: Seq<char>)
    ensures
        weight_sum(s) >= 0,
    decreases s.len(),
{
    if s.len() > 0 {
        lemma_weight_nonneg(s.drop_last());
    }
}

proof fn lemma_weight_split(s: Seq<char>, i: int, j: int, k: int)
    requires
        0 <= i <= j <= k <= s.len(),
    ensures
        weight_sum(s.subrange(i, k)) == weight_sum(s.subrange(i, j)) + weight_sum(s.subrange(j, k)),
    decreases k - j,
{
    if k > j {
        lemma_weight_split(s, i, j, k - 1);
        assert(s.subrange(i, k).drop_last() =~= s.subrange(i, k - 1));
        assert(s.subrange(j, k).drop_last() =~= s.subrange(j, k - 1));
    } else {
        assert(s.subrange(j, k).len() == 0);
    }
}

/// Whether natural order can be asked of a name without risk of overflow.
pub fn is_natural_safe(s: &str) -> (r: bool)
    ensures
        r == natural_safe(s@),
{
    let v = crate::text::chars_of(s);
    let ghost t = s@;
    let mut cur: u32 = 0;
    let ghost mut start: int = 0;
    let mut i: usize = 0;
    while i < v.len()
        invariant
            v@ == t,
            t == s@,
            0 <= start <= i <= t.len(),
            start == 0 || !run_char(t[start - 1]),
            all_run(t, start, i as int),
            cur == weight_sum(t.subrange(start, i as int)),
            cur <= 19,
            forall|a: int, b: int|
                0 <= a <= b <= i && all_run(t, a, b) ==> #[trigger] weight_sum(t.subrange(a, b)) <= 19,
        decreases t.len() - i,
    {
        let c = v[i];
        if ('0' <= c && c <= '9') || (c as u32) >= 128 {
            let w: u32 = if '0' <= c && c <= '9' {
                1
            } else {
                10
            };
            proof {
                lemma_weight_split(t, start, i as int, i + 1);
                assert(t.subrange(i as int, i + 1).drop_last() =~= Seq::<char>::empty());
                assert(t.subrange(i as int, i + 1).last() == c);
                assert(weight_sum(Seq::<char>::empty()) == 0);
                assert(run_weight(c) == w);
                assert(weight_sum(t.subrange(i as int, i + 1)) == w);
            }
            if cur + w > 19 {
                proof {
                    assert(all_run(t, start, i + 1));
                    assert(weight_sum(t.subrange(start, i + 1)) > 19);
                }
                return false;
            }
            proof {
                assert forall|a: int, b: int|
                    0 <= a <= b <= i + 1 && all_run(t, a, b) implies #[trigger] weight_sum(
                    t.subrange(a, b),
                ) <= 19 by {
                    if b == i + 1 {
                        if a < start {
                            assert(run_char(t[start - 1]));
                        } else {
                            lemma_weight_split(t, start, a, i + 1);
                            lemma_weight_nonneg(t.subrange(start, a));
                        }
                    }
                }
            }
            cur = cur + w;
        } else {
            proof {
                assert forall|a: int, b: int|
                    0 <= a <= b <= i + 1 && all_run(t, a, b) implies #[trigger] weight_sum(
                    t.subrange(a, b),
                ) <= 19 by {
                    if b == i + 1 && a <= i {
                        assert(run_char(t[i as int]));
                    }
                    if b == i + 1 && a == i + 1 {
                        assert(t.subrange(a, b).len() == 0);
                    }
                }
                start = i + 1;
                assert(t.subrange(start, i + 1).len() == 0);
            }
            cur = 0;
        }
        i = i + 1;
    }
    true
}

/// How `lexical_sort::natural_lexical_cmp` orders two names: -1, 0 or 1.
pub uninterp spec fn natural_order(a: Seq<char>, b: Seq<char>) -> i8;

/// `lexical_sort::natural_lexical_cmp`, as -1, 0 or 1. Its code is symmetric
/// in its two arguments and ends, when nothing else told them apart, with
/// the plain comparison of the two strings; so swapping them negates the
/// result, and only equal names compare equal. Names with a run of digits
/// that could overflow its `u64` accumulator are not passed.
#[verifier::external_body]
fn natural_lexical(a: &str, b: &str) -> (r: i8)
    requires
        natural_safe(a@),
        natural_safe(b@),
    ensures
        r == natural_order(a@, b@),
        -1 <= r <= 1,
        natural_order(b@, a@) == -r,
        (r == 0) == (a@ == b@),
{
    match lexical_sort::natural_lexical_cmp(a, b) {
        std::cmp::Ordering::Less => -1,
        std::cmp::Ordering::Equal => 0,
        std::cmp::Ordering::Greater => 1,
    }
}

/// How two file names are ordered: naturally, or by code points where a
/// name holds a digit run too long to read as a number.
pub open spec fn name_order(a: Seq<char>, b: Seq<char>) -> int {
    if natural_safe(a) && natural_safe(b) {
        natural_order(a, b) as int
    } else if a == b {
        0
    } else if text_lt(a, b) {
        -1
    } else {
        1
    }
}

/// Compares two file names: -1, 0 or 1.
pub fn compare_names(a: &str, b: &str) -> (r: i8)
    ensures
        r == name_order(a@, b@),
        name_order(b@, a@) == -r,
        -1 <= r <= 1,
        (r == 0) == (a@ == b@),
{
    if is_natural_safe(a) && is_natural_safe(b) {
        natural_lexical(a, b)
    } else {
        let x = crate::text::chars_of(a);
        let y = crate::text::chars_of(b);
        proof {
            lemma_text_lt_total(a@, b@);
            lemma_text_lt_asymmetric(a@, b@);
            lemma_text_lt_irreflexive(a@);
        }
        if crate::order::chars_equal(x.as_slice(), y.as_slice()) {
            0
        } else if crate::order::text_less(x.as_slice(), y.as_slice()) {
            -1
        } else {
            1
        }
    }
}

} // verus!
