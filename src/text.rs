//! Character-level string helpers with exact specifications.
use vstd::prelude::*;

verus! {

/// `pat` occurs in `s` starting at character index `i`.
pub open spec fn occurs_at(s: Seq<char>, pat: Seq<char>, i: int) -> bool {
    0 <= i && i + pat.len() <= s.len() && s.subrange(i, i + pat.len()) == pat
}

/// Every non-overlapping occurrence of `pat` in `s`, scanned from left to
/// right, replaced by `rep`.  An empty pattern leaves `s` as it is.
pub open spec fn replace_all(s: Seq<char>, pat: Seq<char>, rep: Seq<char>) -> Seq<char>
    decreases s.len(),
{
    if pat.len() == 0 || s.len() == 0 {
        s
    } else if occurs_at(s, pat, 0) {
        rep + replace_all(s.subrange(pat.len() as int, s.len() as int), pat, rep)
    } else {
        seq![s[0]] + replace_all(s.subrange(1, s.len() as int), pat, rep)
    }
}

/// Decides `occurs_at(s@, pat@, i)`.
pub fn occurs_at_index(s: &str, s_len: usize, pat: &str, pat_len: usize, i: usize) -> (r: bool)
    requires
        s_len == s@.len(),
        pat_len == pat@.len(),
        i <= s_len,
    ensures
        r == occurs_at(s@, pat@, i as int),
{
    if pat_len > s_len - i {
        return false;
    }
    let mut j: usize = 0;
    while j < pat_len
        invariant
            i + pat_len <= s_len,
            s_len == s@.len(),
            pat_len == pat@.len(),
            j <= pat_len,
            forall|k: int| 0 <= k < j ==> s@[i + k] == pat@[k],
        decreases pat_len - j,
    {
        if s.get_char(i + j) != pat.get_char(j) {
            assert(s@.subrange(i as int, i + pat_len)[j as int] != pat@[j as int]);
            return false;
        }
        j = j + 1;
    }
    assert(s@.subrange(i as int, i + pat_len) =~= pat@);
    true
}

/// Replaces every non-overlapping occurrence of `pat` in `s`, from left to
/// right, by `rep`.
pub fn replace_text(s: &str, pat: &str, rep: &str) -> (r: String)
    ensures
        r@ == replace_all(s@, pat@, rep@),
{
    let n = s.unicode_len();
    let m = pat.unicode_len();
    if m == 0 {
        return String::from_str(s);
    }
    let mut out = String::from_str("");
    proof {
        reveal_strlit("");
    }
    assert(out@ + replace_all(s@.subrange(0, n as int), pat@, rep@) =~= replace_all(s@, pat@, rep@))
        by {
        assert(s@.subrange(0, n as int) =~= s@);
    }
    let mut i: usize = 0;
    while i < n
        invariant
            n == s@.len(),
            m == pat@.len(),
            m > 0,
            i <= n,
            out@ + replace_all(s@.subrange(i as int, n as int), pat@, rep@)
                == replace_all(s@, pat@, rep@),
        decreases n - i,
    {
        let ghost rest = s@.subrange(i as int, n as int);
        if occurs_at_index(s, n, pat, m, i) {
            assert(occurs_at(rest, pat@, 0)) by {
                assert(rest.subrange(0, m as int) =~= s@.subrange(i as int, i + m));
            }
            assert(rest.subrange(m as int, rest.len() as int) =~= s@.subrange(i + m, n as int));
            out.append(rep);
            i = i + m;
        } else {
            assert(!occurs_at(rest, pat@, 0)) by {
                if i + m <= n {
                    assert(rest.subrange(0, m as int) =~= s@.subrange(i as int, i + m));
                }
            }
            assert(rest.subrange(1, rest.len() as int) =~= s@.subrange(i + 1, n as int));
            out.append(s.substring_char(i, i + 1));
            assert(s@.subrange(i as int, i + 1) =~= seq![rest[0]]);
            i = i + 1;
        }
        proof {
            assert(out@ + replace_all(s@.subrange(i as int, n as int), pat@, rep@)
                =~= replace_all(s@, pat@, rep@));
        }
    }
    assert(s@.subrange(n as int, n as int).len() == 0);
    assert(out@ =~= out@ + replace_all(s@.subrange(n as int, n as int), pat@, rep@));
    out
}

} // verus!

verus! {

/// Where `pat` occurs nowhere in `s`, replacing it changes nothing.
pub proof fn lemma_replace_absent(s: Seq<char>, pat: Seq<char>, rep: Seq<char>)
    requires
        forall|i: int| !occurs_at(s, pat, i),
    ensures
        replace_all(s, pat, rep) == s,
    decreases s.len(),
{
    if pat.len() > 0 && s.len() > 0 {
        let t = s.subrange(1, s.len() as int);
        assert forall|i: int| !occurs_at(t, pat, i) by {
            if occurs_at(t, pat, i) {
                assert(t.subrange(i, i + pat.len()) =~= s.subrange(i + 1, i + 1 + pat.len()));
                assert(occurs_at(s, pat, i + 1));
            }
        }
        lemma_replace_absent(t, pat, rep);
        assert(seq![s[0]] + t =~= s);
    }
}

/// Replacing distributes over `x + y` where no occurrence of `pat` in
/// `x + y` starts in `x` and ends in `y`.
pub proof fn lemma_replace_concat(x: Seq<char>, y: Seq<char>, pat: Seq<char>, rep: Seq<char>)
    requires
        pat.len() > 0,
        forall|i: int| 0 <= i < x.len() && i + pat.len() > x.len() ==> !occurs_at(x + y, pat, i),
    ensures
        replace_all(x + y, pat, rep) == replace_all(x, pat, rep) + replace_all(y, pat, rep),
    decreases x.len(),
{
    let s = x + y;
    let m = pat.len() as int;
    if x.len() == 0 {
        assert(s =~= y);
        assert(replace_all(x, pat, rep) + replace_all(y, pat, rep) =~= replace_all(y, pat, rep));
    } else if occurs_at(s, pat, 0) {
        assert(m <= x.len());
        assert(x.subrange(0, m) =~= s.subrange(0, m));
        let x2 = x.subrange(m, x.len() as int);
        assert(s.subrange(m, s.len() as int) =~= x2 + y);
        assert forall|i: int| 0 <= i < x2.len() && i + m > x2.len() implies !occurs_at(x2 + y, pat, i) by {
            if occurs_at(x2 + y, pat, i) {
                assert((x2 + y).subrange(i, i + m) =~= s.subrange(i + m, i + 2 * m));
                assert(occurs_at(s, pat, i + m));
            }
        }
        lemma_replace_concat(x2, y, pat, rep);
        assert(rep + (replace_all(x2, pat, rep) + replace_all(y, pat, rep))
            =~= (rep + replace_all(x2, pat, rep)) + replace_all(y, pat, rep));
    } else {
        assert(!occurs_at(x, pat, 0)) by {
            if occurs_at(x, pat, 0) {
                assert(x.subrange(0, m) =~= s.subrange(0, m));
            }
        }
        let x2 = x.subrange(1, x.len() as int);
        assert(s.subrange(1, s.len() as int) =~= x2 + y);
        assert forall|i: int| 0 <= i < x2.len() && i + m > x2.len() implies !occurs_at(x2 + y, pat, i) by {
            if occurs_at(x2 + y, pat, i) {
                assert((x2 + y).subrange(i, i + m) =~= s.subrange(i + 1, i + 1 + m));
                assert(occurs_at(s, pat, i + 1));
            }
        }
        lemma_replace_concat(x2, y, pat, rep);
        assert(s[0] == x[0]);
        assert(seq![s[0]] + (replace_all(x2, pat, rep) + replace_all(y, pat, rep))
            =~= (seq![x[0]] + replace_all(x2, pat, rep)) + replace_all(y, pat, rep));
    }
}

} // verus!
