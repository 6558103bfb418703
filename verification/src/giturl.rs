use vstd::prelude::*;

verus! {

/// Separators that end a path segment in a repository URL, covering both
/// `https://host/owner/repo` and `git@host:owner/repo` forms.
pub open spec fn is_sep(c: char) -> bool {
    c == '/' || c == ':'
}

/// The segment of `s` after its last separator (all of `s` when it has none).
pub open spec fn segment_after_last_sep(s: Seq<char>) -> Seq<char>
    decreases s.len(),
{
    if s.len() == 0 {
        Seq::empty()
    } else if is_sep(s.last()) {
        Seq::empty()
    } else {
        segment_after_last_sep(s.drop_last()).push(s.last())
    }
}

/// `s` without a trailing `.git`, when it carries one.
pub open spec fn strip_git_suffix(s: Seq<char>) -> Seq<char> {
    if s.len() >= 4 && s.subrange(s.len() - 4, s.len() as int) == ".git"@ {
        s.subrange(0, s.len() - 4)
    } else {
        s
    }
}

/// The filesystem-safe identifier a repository URL is mirrored under: the
/// last segment of the URL's path, without a trailing `.git`.
pub open spec fn spec_git_id(url: Seq<char>) -> Seq<char> {
    segment_after_last_sep(strip_git_suffix(url))
}

proof fn lemma_segment_no_sep(t: Seq<char>)
    requires
        forall|q: int| 0 <= q < t.len() ==> !is_sep(t[q]),
    ensures
        segment_after_last_sep(t) =~= t,
    decreases t.len(),
{
    if t.len() > 0 {
        lemma_segment_no_sep(t.drop_last());
    }
}

proof fn lemma_segment_with_sep(t: Seq<char>, p: int)
    requires
        0 <= p < t.len(),
        is_sep(t[p]),
        forall|q: int| p < q < t.len() ==> !is_sep(t[q]),
    ensures
        segment_after_last_sep(t) =~= t.subrange(p + 1, t.len() as int),
    decreases t.len(),
{
    if p == t.len() - 1 {
    } else {
        lemma_segment_with_sep(t.drop_last(), p);
    }
}

/// Derives the mirror identifier of a repository URL.
pub fn git_id(url: &str) -> (r: String)
    ensures
        r@ == spec_git_id(url@),
{
    proof {
        reveal_strlit(".git");
    }
    let n = url.unicode_len();
    let has_suffix = n >= 4 && url.get_char(n - 4) == '.' && url.get_char(n - 3) == 'g'
        && url.get_char(n - 2) == 'i' && url.get_char(n - 1) == 't';
    let m = if has_suffix {
        n - 4
    } else {
        n
    };
    proof {
        if has_suffix {
            assert(url@.subrange(n - 4, n as int) =~= ".git"@);
        } else if n >= 4 {
            assert(url@.subrange(n - 4, n as int) != ".git"@) by {
                if url@.subrange(n - 4, n as int) == ".git"@ {
                    assert(url@.subrange(n - 4, n as int)[0] == '.');
                    assert(url@.subrange(n - 4, n as int)[1] == 'g');
                    assert(url@.subrange(n - 4, n as int)[2] == 'i');
                    assert(url@.subrange(n - 4, n as int)[3] == 't');
                }
            }
        }
        assert(strip_git_suffix(url@) =~= url@.subrange(0, m as int));
    }
    let ghost t = strip_git_suffix(url@);
    let mut last_sep: Option<usize> = None;
    let mut k: usize = 0;
    while k < m
        invariant
            k <= m <= url@.len(),
            t =~= url@.subrange(0, m as int),
            match last_sep {
                Some(p) => p < k && is_sep(url@[p as int]) && forall|q: int|
                    p < q < k ==> !is_sep(url@[q]),
                None => forall|q: int| 0 <= q < k ==> !is_sep(url@[q]),
            },
        decreases m - k,
    {
        let c = url.get_char(k);
        if c == '/' || c == ':' {
            last_sep = Some(k);
        }
        k += 1;
    }
    let start = match last_sep {
        Some(p) => {
            proof {
                assert(t[p as int] == url@[p as int]);
                assert(forall|q: int| p < q < t.len() ==> t[q] == url@[q] && !is_sep(url@[q]));
                lemma_segment_with_sep(t, p as int);
            }
            p + 1
        },
        None => {
            proof {
                assert(forall|q: int| 0 <= q < t.len() ==> t[q] == url@[q] && !is_sep(url@[q]));
                lemma_segment_no_sep(t);
            }
            0
        },
    };
    let seg = url.substring_char(start, m);
    proof {
        assert(seg@ =~= spec_git_id(url@));
    }
    String::from_str(seg)
}

} // verus!
