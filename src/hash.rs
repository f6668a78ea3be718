use vstd::prelude::*;
use crate::text::{chars_of, slice_chars, string_of};

verus! {

/// Length of a content-addressed identifier.
pub const HASH_LEN: usize = 32;

/// An ASCII letter or digit.
pub open spec fn is_alnum(c: char) -> bool {
    ('a' <= c && c <= 'z') || ('A' <= c && c <= 'Z') || ('0' <= c && c <= '9')
}

/// `s` holds 32 letters or digits starting at `i`.
pub open spec fn window_at(s: Seq<char>, i: int) -> bool {
    &&& 0 <= i
    &&& i + HASH_LEN <= s.len()
    &&& forall|k: int| i <= k < i + HASH_LEN ==> #[trigger] is_alnum(s[k])
}

/// No line break in `s` between `lo` (inclusive) and `hi` (exclusive).
pub open spec fn no_newline(s: Seq<char>, lo: int, hi: int) -> bool {
    forall|k: int| lo <= k < hi ==> #[trigger] s[k] != '\n'
}

/// `s` holds a 32-character alphanumeric run somewhere.
pub open spec fn has_window(s: Seq<char>) -> bool {
    exists|i: int| window_at(s, i)
}

/// The identifier starts at `i`: the match begins on the first line that holds a run,
/// and the greedy prefix takes the last run that starts on that line.
pub open spec fn is_hash_start(s: Seq<char>, i: int) -> bool {
    &&& window_at(s, i)
    &&& forall|j: int| 0 <= j < i && #[trigger] window_at(s, j) ==> no_newline(s, j, i)
    &&& forall|j: int| i < j && #[trigger] window_at(s, j) ==> !no_newline(s, i, j)
}

/// At most one position is where the identifier starts, so the identifier of a string
/// is determined by the string alone.
pub proof fn lemma_hash_start_unique(s: Seq<char>, i: int, j: int)
    requires
        is_hash_start(s, i),
        is_hash_start(s, j),
    ensures
        i == j,
{
    if i < j {
        assert(window_at(s, j));
        assert(!no_newline(s, i, j));
        assert(window_at(s, i));
        assert(no_newline(s, i, j));
    } else if j < i {
        assert(window_at(s, i));
        assert(!no_newline(s, j, i));
        assert(window_at(s, j));
        assert(no_newline(s, j, i));
    }
}

fn is_alnum_char(c: char) -> (r: bool)
    ensures
        r == is_alnum(c),
{
    ('a' <= c && c <= 'z') || ('A' <= c && c <= 'Z') || ('0' <= c && c <= '9')
}

/// Where the identifier of `s` starts, if `s` holds one.
pub fn find_hash_start(s: &Vec<char>) -> (r: Option<usize>)
    ensures
        r matches Some(i) ==> is_hash_start(s@, i as int),
        r is None <==> !has_window(s@),
{
    let n = s.len();
    let mut best: Option<usize> = None;
    let mut run: usize = 0;
    let mut k: usize = 0;
    while k < n
        invariant
            n == s@.len(),
            k <= n,
            run <= k,
            forall|t: int| k - run <= t < k ==> #[trigger] is_alnum(s@[t]),
            run < k ==> !is_alnum(s@[k - run - 1]),
            best is None ==> forall|j: int| 0 <= j && j + HASH_LEN <= k ==> !#[trigger] window_at(s@, j),
            best matches Some(i) ==> {
                &&& window_at(s@, i as int)
                &&& i + HASH_LEN <= k
                &&& no_newline(s@, i as int, k as int)
                &&& forall|j: int| 0 <= j < i && #[trigger] window_at(s@, j) ==> no_newline(s@, j, i as int)
                &&& forall|j: int| i < j && j + HASH_LEN <= k ==> !#[trigger] window_at(s@, j)
            },
        decreases n - k,
    {
        let c = s[k];
        if c == '\n' {
            if let Some(i) = best {
                proof {
                    assert forall|j: int| i < j && #[trigger] window_at(s@, j) implies !no_newline(s@, i as int, j) by {
                        if j + HASH_LEN <= k {
                        } else if j <= k {
                            assert(is_alnum(s@[k as int]));
                        } else {
                            assert(s@[k as int] == '\n');
                        }
                    }
                }
                return Some(i);
            }
            proof {
                if k + 1 >= HASH_LEN {
                    assert(!is_alnum(s@[k as int]));
                    assert(!window_at(s@, k + 1 - HASH_LEN));
                }
            }
            run = 0;
        } else if is_alnum_char(c) {
            let ghost prev = best;
            proof {
                if let Some(i) = best {
                    assert(no_newline(s@, i as int, k + 1));
                }
            }
            run = run + 1;
            if run >= HASH_LEN {
                let i2 = k + 1 - HASH_LEN;
                proof {
                    assert forall|t: int| k + 1 - run <= t < k + 1 implies #[trigger] is_alnum(s@[t]) by {
                        if t < k {
                        }
                    }
                    assert(window_at(s@, i2 as int));
                    assert forall|t: int| i2 <= t < k + 1 implies #[trigger] s@[t] != '\n' by {
                        assert(is_alnum(s@[t]));
                    }
                    assert forall|j: int| 0 <= j < i2 && #[trigger] window_at(s@, j) implies no_newline(s@, j, i2 as int) by {
                        match prev {
                            Some(i) => {
                                if j < i {
                                    assert(no_newline(s@, j, i as int));
                                    assert(no_newline(s@, i as int, k as int));
                                } else {
                                    assert(no_newline(s@, i as int, k as int));
                                }
                            },
                            None => {
                                assert(!window_at(s@, j));
                            },
                        }
                    }
                }
                best = Some(i2);
            } else {
                proof {
                    if k + 1 >= HASH_LEN {
                        assert(!is_alnum(s@[k + 1 - run - 1]));
                        assert(!window_at(s@, k + 1 - HASH_LEN));
                    }
                }
            }
        } else {
            proof {
                if k + 1 >= HASH_LEN {
                    assert(!is_alnum(s@[k as int]));
                    assert(!window_at(s@, k + 1 - HASH_LEN));
                }
            }
            run = 0;
        }
        k = k + 1;
    }
    proof {
        if best is None {
            assert forall|j: int| !#[trigger] window_at(s@, j) by {
                if 0 <= j && j + HASH_LEN <= n {
                }
            }
        }
    }
    best
}

/// The identifier in `input`: the 32-character alphanumeric run that `is_hash_start` picks.
pub fn extract_hash(input: &str) -> (r: Option<String>)
    ensures
        r matches Some(h) ==> exists|i: int|
            is_hash_start(input@, i) && h@ == #[trigger] input@.subrange(i, i + HASH_LEN),
        r is None <==> !has_window(input@),
{
    let s = chars_of(input);
    match find_hash_start(&s) {
        Some(i) => {
            assert(i + HASH_LEN <= s@.len() == s.len());
            let v = slice_chars(&s, i, i + HASH_LEN);
            let h = string_of(&v);
            assert(h@ == input@.subrange(i as int, i + HASH_LEN));
            Some(h)
        },
        None => None,
    }
}

/// A 32-character alphanumeric run, after a prefix with no line break (a path such as
/// `/nix/store/`) and before a suffix that holds no such run and starts with `-` if it is
/// not empty, is the identifier: it is where the identifier starts, and nowhere else is.
pub proof fn lemma_framed_run_is_hash(p: Seq<char>, h: Seq<char>, q: Seq<char>)
    requires
        h.len() == HASH_LEN,
        forall|k: int| 0 <= k < h.len() ==> #[trigger] is_alnum(h[k]),
        no_newline(p, 0, p.len() as int),
        q.len() == 0 || q[0] == '-',
        !has_window(q),
    ensures
        forall|i: int| is_hash_start(p + h + q, i) <==> i == p.len(),
        (p + h + q).subrange(p.len() as int, p.len() + HASH_LEN) == h,
{
    let s = p + h + q;
    let a = p.len() as int;
    assert(s.subrange(a, a + HASH_LEN) =~= h);
    assert forall|k: int| a <= k < a + HASH_LEN implies #[trigger] is_alnum(s[k]) by {
        assert(s[k] == h[k - a]);
    }
    assert(window_at(s, a));
    assert(no_newline(s, 0, a)) by {
        assert forall|k: int| 0 <= k < a implies #[trigger] s[k] != '\n' by {
            assert(s[k] == p[k]);
        }
    }
    assert forall|j: int| a < j implies !#[trigger] window_at(s, j) by {
        if window_at(s, j) {
            if j <= a + HASH_LEN {
                assert(s[a + HASH_LEN] == q[0]);
                assert(is_alnum(s[a + HASH_LEN]));
            } else {
                let j2 = j - a - HASH_LEN;
                assert forall|k: int| j2 <= k < j2 + HASH_LEN implies #[trigger] is_alnum(q[k]) by {
                    assert(s[k + a + HASH_LEN] == q[k]);
                    assert(is_alnum(s[k + a + HASH_LEN]));
                }
                assert(window_at(q, j2));
            }
        }
    }
    assert(is_hash_start(s, a));
    assert forall|i: int| is_hash_start(s, i) implies i == a by {
        if i < a {
            assert(window_at(s, a));
            assert forall|k: int| i <= k < a implies #[trigger] s[k] != '\n' by {
                assert(no_newline(s, 0, a));
            }
            assert(no_newline(s, i, a));
        }
    }
}

} // verus!
