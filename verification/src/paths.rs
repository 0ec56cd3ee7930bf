use vstd::prelude::*;

verus! {

/// Index of the first separator in `p`, or `p.len()` if `p` has none.
pub open spec fn first_sep(p: Seq<char>) -> int
    decreases p.len(),
{
    if p.len() == 0 {
        0
    } else if p[0] == '/' {
        0
    } else {
        1 + first_sep(p.subrange(1, p.len() as int))
    }
}

pub proof fn lemma_first_sep(p: Seq<char>)
    ensures
        0 <= first_sep(p) <= p.len(),
        forall|i: int| 0 <= i < first_sep(p) ==> p[i] != '/',
        first_sep(p) < p.len() ==> p[first_sep(p)] == '/',
    decreases p.len(),
{
    if p.len() > 0 && p[0] != '/' {
        let sub = p.subrange(1, p.len() as int);
        lemma_first_sep(sub);
        assert forall|i: int| 1 <= i < p.len() implies p[i] == sub[i - 1] by {}
    }
}

/// The separator-delimited segments of `p`, empty pieces dropped.
pub open spec fn spec_segments(p: Seq<char>) -> Seq<Seq<char>>
    decreases p.len(),
    via spec_segments_decreases
{
    if p.len() == 0 {
        Seq::empty()
    } else if p[0] == '/' {
        spec_segments(p.subrange(1, p.len() as int))
    } else {
        let k = first_sep(p);
        seq![p.subrange(0, k)] + spec_segments(p.subrange(k, p.len() as int))
    }
}

#[via_fn]
proof fn spec_segments_decreases(p: Seq<char>) {
    lemma_first_sep(p);
}

/// A well-formed insertion path: it starts with the separator, ends with a
/// segment, and has no empty segment inside.
pub open spec fn valid_path(p: Seq<char>) -> bool {
    &&& p.len() >= 2
    &&& p[0] == '/'
    &&& p[p.len() - 1] != '/'
    &&& forall|i: int| 0 <= i < p.len() - 1 ==> !(#[trigger] p[i] == '/' && p[i + 1] == '/')
}

pub proof fn lemma_valid_path_has_segments(p: Seq<char>)
    requires
        valid_path(p),
    ensures
        spec_segments(p).len() >= 1,
{
    let q = p.subrange(1, p.len() as int);
    assert(spec_segments(p) == spec_segments(q));
    assert(q.len() >= 1);
    assert(q[0] != '/');
    assert(spec_segments(q).len() >= 1);
}

/// Compares two string slices by their characters.
pub fn str_eq(a: &str, b: &str) -> (r: bool)
    ensures
        r == (a@ == b@),
{
    let a_len = a.unicode_len();
    let b_len = b.unicode_len();
    if a_len != b_len {
        return false;
    }
    let mut i: usize = 0;
    while i < a_len
        invariant
            0 <= i <= a_len,
            a_len == a@.len(),
            a_len == b@.len(),
            forall|j: int| 0 <= j < i ==> a@[j] == b@[j],
        decreases a_len - i,
    {
        if a.get_char(i) != b.get_char(i) {
            return false;
        }
        i = i + 1;
    }
    proof {
        assert(a@ =~= b@);
    }
    true
}

/// Index of the first separator at or after `from`, or the length of `s`
/// if there is none.
fn find_sep_from(s: &str, from: usize) -> (r: usize)
    requires
        from <= s@.len(),
    ensures
        from <= r <= s@.len(),
        forall|j: int| from <= j < r ==> s@[j] != '/',
        r < s@.len() ==> s@[r as int] == '/',
{
    let n = s.unicode_len();
    let mut i: usize = from;
    while i < n
        invariant
            from <= i <= n,
            n == s@.len(),
            forall|j: int| from <= j < i ==> s@[j] != '/',
        decreases n - i,
    {
        if s.get_char(i) == '/' {
            return i;
        }
        i = i + 1;
    }
    i
}

/// `first_sep` of a suffix, phrased over the whole sequence.
proof fn lemma_first_sep_from(p: Seq<char>, from: int, r: int)
    requires
        0 <= from <= p.len(),
        from <= r <= p.len(),
        forall|j: int| from <= j < r ==> p[j] != '/',
        r < p.len() ==> p[r] == '/',
    ensures
        first_sep(p.subrange(from, p.len() as int)) == r - from,
    decreases r - from,
{
    let q = p.subrange(from, p.len() as int);
    if r == from {
        if q.len() > 0 {
            assert(q[0] == p[from]);
        }
    } else {
        assert(q[0] == p[from]);
        assert(q[0] != '/');
        lemma_first_sep_from(p, from + 1, r);
        assert(q.subrange(1, q.len() as int) =~= p.subrange(from + 1, p.len() as int));
    }
}

/// Splits `path` into its non-empty separator-delimited segments.
pub fn split_segments(path: &str) -> (segs: Vec<String>)
    ensures
        segs@.map_values(|s: String| s@) == spec_segments(path@),
{
    let n = path.unicode_len();
    let mut segs: Vec<String> = Vec::new();
    let mut i: usize = 0;
    proof {
        assert(path@.subrange(0, n as int) =~= path@);
        assert(segs@.map_values(|s: String| s@) =~= Seq::<Seq<char>>::empty());
    }
    while i < n
        invariant
            0 <= i <= n,
            n == path@.len(),
            segs@.map_values(|s: String| s@) + spec_segments(path@.subrange(i as int, n as int))
                =~= spec_segments(path@),
        decreases n - i,
    {
        if path.get_char(i) == '/' {
            proof {
                let suffix = path@.subrange(i as int, n as int);
                assert(suffix[0] == path@[i as int]);
                assert(suffix.subrange(1, suffix.len() as int) =~= path@.subrange(
                    i + 1,
                    n as int,
                ));
            }
            i = i + 1;
        } else {
            let j = find_sep_from(path, i);
            let seg = path.substring_char(i, j);
            proof {
                let suffix = path@.subrange(i as int, n as int);
                lemma_first_sep_from(path@, i as int, j as int);
                assert(suffix[0] == path@[i as int]);
                assert(suffix.subrange(0, (j - i) as int) =~= path@.subrange(i as int, j as int));
                assert(suffix.subrange((j - i) as int, suffix.len() as int) =~= path@.subrange(
                    j as int,
                    n as int,
                ));
                assert(spec_segments(suffix) == seq![path@.subrange(i as int, j as int)]
                    + spec_segments(path@.subrange(j as int, n as int)));
            }
            let ghost old_segs = segs@;
            segs.push(seg.to_owned());
            proof {
                assert(segs@.map_values(|s: String| s@) =~= old_segs.map_values(|s: String| s@)
                    + seq![path@.subrange(i as int, j as int)]);
            }
            i = j;
        }
    }
    proof {
        assert(path@.subrange(n as int, n as int) =~= Seq::<char>::empty());
        assert(spec_segments(Seq::<char>::empty()) == Seq::<Seq<char>>::empty());
        assert(segs@.map_values(|s: String| s@) =~= spec_segments(path@));
    }
    segs
}

} // verus!
