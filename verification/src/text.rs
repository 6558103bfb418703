use vstd::prelude::*;

verus! {

/// `needle` occurs contiguously somewhere in `haystack`.
pub open spec fn contains_sub(haystack: Seq<char>, needle: Seq<char>) -> bool {
    exists|i: int|
        0 <= i && i + needle.len() <= haystack.len() && #[trigger] haystack.subrange(
            i,
            i + needle.len(),
        ) == needle
}

/// Substring search over character sequences.
pub fn str_contains(haystack: &str, needle: &str) -> (r: bool)
    ensures
        r == contains_sub(haystack@, needle@),
{
    let hl = haystack.unicode_len();
    let nl = needle.unicode_len();
    if nl > hl {
        proof {
            assert(!contains_sub(haystack@, needle@)) by {
                if contains_sub(haystack@, needle@) {
                    let p = choose|p: int|
                        0 <= p && p + needle@.len() <= haystack@.len() && #[trigger] haystack@.subrange(
                            p,
                            p + needle@.len(),
                        ) == needle@;
                }
            }
        }
        return false;
    }
    let mut i: usize = 0;
    while i <= hl - nl
        invariant
            nl <= hl == haystack@.len(),
            nl == needle@.len(),
            i <= hl - nl + 1,
            forall|p: int|
                0 <= p < i ==> #[trigger] haystack@.subrange(p, p + needle@.len()) != needle@,
        decreases hl + 1 - i,
    {
        let mut j: usize = 0;
        let mut all_match = true;
        while j < nl
            invariant
                nl <= hl == haystack@.len(),
                nl == needle@.len(),
                i + nl <= hl,
                j <= nl,
                !all_match ==> j == nl,
                all_match ==> (forall|q: int| 0 <= q < j ==> haystack@[i + q] == needle@[q]),
                !all_match ==> !(forall|q: int| 0 <= q < nl ==> haystack@[i + q] == needle@[q]),
            decreases nl - j,
        {
            if haystack.get_char(i + j) != needle.get_char(j) {
                all_match = false;
                proof {
                    assert(haystack@[i + j] != needle@[j as int]);
                    assert(!(forall|q: int| 0 <= q < nl ==> haystack@[i + q] == needle@[q]));
                }
                j = nl;
            } else {
                proof {
                    assert(haystack@[i + j] == needle@[j as int]);
                    assert(forall|q: int|
                        0 <= q < j + 1 ==> haystack@[i + q] == needle@[q]);
                }
                j += 1;
            }
        }
        if all_match {
            proof {
                assert(haystack@.subrange(i as int, i + needle@.len()) =~= needle@);
            }
            return true;
        }
        proof {
            assert(haystack@.subrange(i as int, i + needle@.len()) != needle@) by {
                let q = choose|q: int| 0 <= q < nl && haystack@[i + q] != needle@[q];
                assert(haystack@.subrange(i as int, i + needle@.len())[q] == haystack@[i + q]);
            }
        }
        i += 1;
    }
    proof {
        assert(!contains_sub(haystack@, needle@)) by {
            if contains_sub(haystack@, needle@) {
                let p = choose|p: int|
                    0 <= p && p + needle@.len() <= haystack@.len() && #[trigger] haystack@.subrange(
                        p,
                        p + needle@.len(),
                    ) == needle@;
                assert(haystack@.subrange(p, p + needle@.len()) != needle@);
            }
        }
    }
    false
}

} // verus!
