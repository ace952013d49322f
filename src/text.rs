use vstd::prelude::*;

verus! {

/// The character sequences of a sequence of strings.
pub open spec fn texts_view(parts: Seq<String>) -> Seq<Seq<char>> {
    parts.map_values(|s: String| s@)
}

/// Clones every string of a vector.
pub fn clone_texts(v: &Vec<String>) -> (r: Vec<String>)
    ensures
        r@ == v@,
{
    let mut r: Vec<String> = Vec::new();
    for i in 0..v.len()
        invariant
            r@ == v@.subrange(0, i as int),
    {
        r.push(v[i].clone());
        assert(r@ =~= v@.subrange(0, i + 1));
    }
    assert(r@ =~= v@);
    r
}

/// Whether `s` begins with `prefix`.
pub fn text_starts_with(s: &str, prefix: &str) -> (r: bool)
    ensures
        r == (prefix@.len() <= s@.len() && s@.subrange(0, prefix@.len() as int) == prefix@),
{
    let n = prefix.unicode_len();
    let m = s.unicode_len();
    if n > m {
        return false;
    }
    for i in 0..n
        invariant
            n == prefix@.len(),
            m == s@.len(),
            n <= m,
            s@.subrange(0, i as int) == prefix@.subrange(0, i as int),
    {
        if s.get_char(i) != prefix.get_char(i) {
            assert(s@.subrange(0, n as int)[i as int] != prefix@[i as int]);
            return false;
        }
        assert(s@.subrange(0, i + 1) =~= prefix@.subrange(0, i + 1));
    }
    assert(prefix@.subrange(0, n as int) =~= prefix@);
    true
}

/// Index of the first element of `s` that satisfies `p`.
pub open spec fn first_where<A>(s: Seq<A>, p: spec_fn(A) -> bool) -> Option<int>
    decreases s.len(),
{
    if s.len() == 0 {
        None
    } else {
        match first_where(s.drop_last(), p) {
            Some(i) => Some(i),
            None => if p(s.last()) {
                Some(s.len() - 1)
            } else {
                None
            },
        }
    }
}

/// `first_where` finds the least index that satisfies the predicate.
pub proof fn lemma_first_where<A>(s: Seq<A>, p: spec_fn(A) -> bool)
    ensures
        first_where(s, p) matches Some(k) ==> {
            &&& 0 <= k < s.len()
            &&& p(s[k])
            &&& forall|j: int| 0 <= j < k ==> !p(#[trigger] s[j])
        },
        first_where(s, p) is None <==> forall|j: int| 0 <= j < s.len() ==> !p(#[trigger] s[j]),
    decreases s.len(),
{
    if s.len() > 0 {
        lemma_first_where(s.drop_last(), p);
        assert forall|j: int| 0 <= j < s.len() - 1 implies s.drop_last()[j] == s[j] by {}
        if first_where(s.drop_last(), p) is None && !p(s.last()) {
            assert forall|j: int| 0 <= j < s.len() implies !p(#[trigger] s[j]) by {
                if j < s.len() - 1 {
                    assert(s.drop_last()[j] == s[j]);
                }
            }
        }
    }
}

/// The least index that satisfies `p` is what `first_where` returns.
pub proof fn lemma_first_where_at<A>(s: Seq<A>, p: spec_fn(A) -> bool, k: int)
    requires
        0 <= k < s.len(),
        p(s[k]),
        forall|j: int| 0 <= j < k ==> !p(#[trigger] s[j]),
    ensures
        first_where(s, p) == Some(k),
{
    lemma_first_where(s, p);
    match first_where(s, p) {
        Some(i) => {
            if i < k {
                assert(!p(s[i]));
            } else if i > k {
                assert(!p(s[k]));
            }
        },
        None => {
            assert(!p(s[k]));
        },
    }
}

/// Position of the last `c` in `s`, if any.
pub open spec fn last_of(s: Seq<char>, c: char) -> Option<int>
    decreases s.len(),
{
    if s.len() == 0 {
        None
    } else if s.last() == c {
        Some(s.len() - 1)
    } else {
        last_of(s.drop_last(), c)
    }
}

/// The pieces of `s` between occurrences of `sep`; an empty `s` is one empty piece.
pub open spec fn pieces(s: Seq<char>, sep: char) -> Seq<Seq<char>>
    decreases s.len(),
{
    match last_of(s, sep) {
        Some(i) if 0 <= i < s.len() => pieces(s.subrange(0, i), sep).push(s.subrange(i + 1, s.len() as int)),
        _ => seq![s],
    }
}

/// The pieces ended by the separator at `start - 1`, none when `start` is 0.
pub open spec fn pieces_before(s: Seq<char>, sep: char, start: int) -> Seq<Seq<char>> {
    if start <= 0 {
        Seq::empty()
    } else {
        pieces(s.subrange(0, start - 1), sep)
    }
}

/// A prefix ending in a stretch free of `sep` splits into the pieces before
/// that stretch and the stretch itself.
pub proof fn lemma_pieces_step(s: Seq<char>, sep: char, start: int, end: int)
    requires
        0 <= start <= end <= s.len(),
        start > 0 ==> s[start - 1] == sep,
        forall|k: int| start <= k < end ==> s[k] != sep,
    ensures
        pieces(s.subrange(0, end), sep) == pieces_before(s, sep, start).push(s.subrange(start, end)),
{
    let t = s.subrange(0, end);
    lemma_last_of_stretch(t, sep, start);
    if start > 0 {
        assert(t.subrange(0, start - 1) =~= s.subrange(0, start - 1));
        assert(t.subrange(start, t.len() as int) =~= s.subrange(start, end));
    } else {
        assert(pieces_before(s, sep, start) == Seq::<Seq<char>>::empty());
        assert(seq![t] =~= Seq::<Seq<char>>::empty().push(s.subrange(start, end)));
    }
}

proof fn lemma_last_of_stretch(t: Seq<char>, c: char, start: int)
    requires
        0 <= start <= t.len(),
        start > 0 ==> t[start - 1] == c,
        forall|k: int| start <= k < t.len() ==> t[k] != c,
    ensures
        start > 0 ==> last_of(t, c) == Some(start - 1),
        start == 0 ==> last_of(t, c) is None,
    decreases t.len(),
{
    if t.len() > start {
        lemma_last_of_stretch(t.drop_last(), c, start);
    }
}

} // verus!
