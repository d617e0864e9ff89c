//! Path helpers: the base name of a path (the segment after the last `/`)
//! and the strictly-under relation between a path and a directory.

use vstd::prelude::*;
use vstd::string::StrSliceExecFns;

verus! {

/// Index just after the last `/` of `p`, or `0` when `p` holds no `/`.
pub open spec fn spec_cut(p: Seq<char>) -> int
    decreases p.len(),
{
    if p.len() == 0 {
        0
    } else if p[p.len() - 1] == '/' {
        p.len() as int
    } else {
        spec_cut(p.drop_last())
    }
}

/// The base name of `p`: everything after the last `/`, or all of `p`
/// when it holds no `/`.
pub open spec fn spec_base_name(p: Seq<char>) -> Seq<char> {
    p.subrange(spec_cut(p), p.len() as int)
}

/// `p` lies strictly below the directory `d`: it extends `d` past a `/`.
pub open spec fn spec_is_under(p: Seq<char>, d: Seq<char>) -> bool {
    &&& p.len() > d.len()
    &&& p.subrange(0, d.len() as int) == d
    &&& p[d.len() as int] == '/'
}

pub proof fn lemma_cut_unique(p: Seq<char>, c: int)
    requires
        0 <= c <= p.len(),
        c == 0 || p[c - 1] == '/',
        forall|k: int| c <= k < p.len() ==> p[k] != '/',
    ensures
        c == spec_cut(p),
    decreases p.len(),
{
    if p.len() == 0 {
    } else if p[p.len() - 1] == '/' {
        if c < p.len() {
            assert(p[p.len() - 1] != '/');
        }
    } else {
        if c == p.len() {
            assert(p[c - 1] == '/');
            assert(false);
        }
        assert forall|k: int| c <= k < p.drop_last().len() implies p.drop_last()[k] != '/' by {
            assert(p.drop_last()[k] == p[k]);
        }
        if c > 0 {
            assert(p.drop_last()[c - 1] == p[c - 1]);
        }
        lemma_cut_unique(p.drop_last(), c);
    }
}

/// The base name of `path`: the segment after the last `/`, or the whole
/// of `path` when it holds none.
pub fn base_name(path: &str) -> (r: &str)
    ensures
        r@ == spec_base_name(path@),
{
    let n = path.unicode_len();
    let mut i: usize = n;
    while i > 0 && path.get_char(i - 1) != '/'
        invariant
            i <= n,
            n == path@.len(),
            forall|k: int| i <= k < n ==> path@[k] != '/',
        decreases i,
    {
        i = i - 1;
    }
    proof {
        lemma_cut_unique(path@, i as int);
    }
    path.substring_char(i, n)
}

/// Whether `path` lies strictly below the directory `dir`.
pub fn path_is_under(path: &str, dir: &str) -> (r: bool)
    ensures
        r == spec_is_under(path@, dir@),
{
    let np = path.unicode_len();
    let nd = dir.unicode_len();
    if np <= nd {
        return false;
    }
    if path.get_char(nd) != '/' {
        return false;
    }
    let mut k: usize = 0;
    while k < nd
        invariant
            k <= nd,
            np == path@.len(),
            nd == dir@.len(),
            np > nd,
            path@[nd as int] == '/',
            forall|j: int| 0 <= j < k ==> path@[j] == dir@[j],
        decreases nd - k,
    {
        if path.get_char(k) != dir.get_char(k) {
            proof {
                assert(path@.subrange(0, nd as int)[k as int] != dir@[k as int]);
            }
            return false;
        }
        k = k + 1;
    }
    proof {
        assert(path@.subrange(0, nd as int) =~= dir@);
    }
    true
}

} // verus!
