//! Character-level string helpers shared by the path and protocol logic.

use vstd::prelude::*;
use vstd::string::StrSliceExecFns;
use vstd::string::StringExecFns;

verus! {

/// `s` with every backslash replaced by a forward slash, so that paths read
/// the same whichever separator convention the host uses.
pub open spec fn normalize_seps(s: Seq<char>) -> Seq<char> {
    Seq::new(s.len(), |i: int| if s[i] == '\\' { '/' } else { s[i] })
}

/// `suf` is a suffix of `s`.
pub open spec fn ends_with(s: Seq<char>, suf: Seq<char>) -> bool {
    suf.len() <= s.len() && s.subrange(s.len() - suf.len(), s.len() as int) == suf
}

/// `pre` is a path-component prefix of `p`: either the whole of `p`, or a
/// prefix of it followed immediately by a separator.
pub open spec fn path_starts_with(p: Seq<char>, pre: Seq<char>) -> bool {
    p == pre || (p.len() > pre.len() && p.subrange(0, pre.len() as int) == pre
        && p[pre.len() as int] == '/')
}

/// Index of the last occurrence of `c` in `s`, if any.
pub open spec fn index_of_last_char(s: Seq<char>, c: char) -> Option<int>
    decreases s.len(),
{
    if s.len() == 0 {
        None
    } else if s[s.len() - 1] == c {
        Some(s.len() - 1)
    } else {
        index_of_last_char(s.drop_last(), c)
    }
}

/// What `index_of_last_char` finds is indeed the last occurrence.
pub proof fn lemma_index_of_last_char(s: Seq<char>, c: char)
    ensures
        match index_of_last_char(s, c) {
            Some(i) => 0 <= i < s.len() && s[i] == c
                && forall|j: int| i < j < s.len() ==> s[j] != c,
            None => forall|j: int| 0 <= j < s.len() ==> s[j] != c,
        },
    decreases s.len(),
{
    if s.len() > 0 && s[s.len() - 1] != c {
        lemma_index_of_last_char(s.drop_last(), c);
        assert(forall|j: int| 0 <= j < s.len() - 1 ==> s[j] == s.drop_last()[j]);
    }
}

/// Normalizing separators distributes over concatenation.
pub proof fn lemma_normalize_concat(a: Seq<char>, b: Seq<char>)
    ensures
        normalize_seps(a + b) == normalize_seps(a) + normalize_seps(b),
{
    assert(normalize_seps(a + b) =~= normalize_seps(a) + normalize_seps(b));
}

/// `s` with every backslash replaced by a forward slash.
pub fn normalize_separators(s: &str) -> (r: String)
    ensures
        r@ == normalize_seps(s@),
{
    let n = s.unicode_len();
    let mut out = String::new();
    let mut i: usize = 0;
    while i < n
        invariant
            i <= n,
            n == s@.len(),
            out@ == normalize_seps(s@.take(i as int)),
        decreases n - i,
    {
        let c = s.get_char(i);
        if c == '\\' {
            out.append("/");
            proof {
                reveal_strlit("/");
            }
        } else {
            out.append(s.substring_char(i, i + 1));
        }
        proof {
            assert(out@ =~= normalize_seps(s@.take(i + 1 as int)));
        }
        i = i + 1;
    }
    proof {
        assert(s@.take(n as int) =~= s@);
    }
    out
}

/// The two strings hold the same characters.
pub fn str_eq(a: &str, b: &str) -> (r: bool)
    ensures
        r == (a@ == b@),
{
    let na = a.unicode_len();
    let nb = b.unicode_len();
    if na != nb {
        return false;
    }
    let mut i: usize = 0;
    while i < na
        invariant
            i <= na,
            na == a@.len(),
            na == b@.len(),
            forall|j: int| 0 <= j < i ==> a@[j] == b@[j],
        decreases na - i,
    {
        if a.get_char(i) != b.get_char(i) {
            return false;
        }
        i = i + 1;
    }
    proof {
        assert(a@ =~= b@);
    }
    true
}

/// `s` ends with the characters of `suf`.
pub fn str_ends_with(s: &str, suf: &str) -> (r: bool)
    ensures
        r == ends_with(s@, suf@),
{
    let n = s.unicode_len();
    let m = suf.unicode_len();
    if m > n {
        return false;
    }
    let tail = s.substring_char(n - m, n);
    str_eq(tail, suf)
}

/// `pre` is a path-component prefix of `p`.
pub fn path_prefix(p: &str, pre: &str) -> (r: bool)
    ensures
        r == path_starts_with(p@, pre@),
{
    let n = p.unicode_len();
    let m = pre.unicode_len();
    if n < m {
        proof {
            if p@ == pre@ {
                assert(p@.len() == pre@.len());
            }
        }
        return false;
    }
    if n == m {
        let r = str_eq(p, pre);
        proof {
            if !r && path_starts_with(p@, pre@) {
                assert(p@ == pre@);
            }
        }
        return r;
    }
    let head = p.substring_char(0, m);
    let r = str_eq(head, pre) && p.get_char(m) == '/';
    proof {
        if p@ == pre@ {
            assert(p@.len() == pre@.len());
        }
    }
    r
}

/// Index of the last occurrence of `c` in `s`, if any.
pub fn find_last_char(s: &str, c: char) -> (r: Option<usize>)
    ensures
        match r {
            Some(i) => index_of_last_char(s@, c) == Some(i as int),
            None => index_of_last_char(s@, c) is None,
        },
{
    let n = s.unicode_len();
    let mut i: usize = n;
    proof {
        assert(s@.take(n as int) =~= s@);
    }
    while i > 0
        invariant
            i <= n,
            n == s@.len(),
            index_of_last_char(s@, c) == index_of_last_char(s@.take(i as int), c),
        decreases i,
    {
        i = i - 1;
        if s.get_char(i) == c {
            proof {
                assert(s@.take(i + 1 as int).last() == s@[i as int]);
            }
            return Some(i);
        }
        proof {
            assert(s@.take(i + 1 as int).last() == s@[i as int]);
            assert(s@.take(i + 1 as int).drop_last() =~= s@.take(i as int));
        }
    }
    proof {
        assert(s@.take(0) =~= Seq::<char>::empty());
    }
    None
}

} // verus!
