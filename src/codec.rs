//! Joining literal segments around a placeholder, and splitting a text on it.
use vstd::prelude::*;

verus! {

/// `p` stands in `t` at position `i`.
pub open spec fn occurs_at(t: Seq<char>, p: Seq<char>, i: int) -> bool {
    &&& 0 <= i
    &&& i + p.len() <= t.len()
    &&& t.subrange(i, i + p.len()) == p
}

/// `p` stands somewhere in `t`.
pub open spec fn occurs_in(t: Seq<char>, p: Seq<char>) -> bool {
    exists|i: int| occurs_at(t, p, i)
}

/// The segments joined, with `p` between each two neighbours.
pub open spec fn join(segs: Seq<Seq<char>>, p: Seq<char>) -> Seq<char>
    decreases segs.len(),
{
    if segs.len() == 0 {
        Seq::empty()
    } else if segs.len() == 1 {
        segs[0]
    } else {
        join(segs.drop_last(), p) + p + segs.last()
    }
}

/// Splitting `t` on `p`, scanning from `i`, where the current piece began at `start`.
/// Occurrences are taken from left to right and do not overlap; an empty `p` never matches.
pub open spec fn split_from(t: Seq<char>, p: Seq<char>, start: int, i: int) -> Seq<Seq<char>>
    decreases t.len() - i,
{
    if p.len() == 0 || i < 0 || i + p.len() > t.len() {
        seq![t.subrange(start, t.len() as int)]
    } else if occurs_at(t, p, i) {
        seq![t.subrange(start, i)] + split_from(t, p, i + p.len(), i + p.len())
    } else {
        split_from(t, p, start, i + 1)
    }
}

/// The pieces of `t` between the occurrences of `p`.
pub open spec fn split(t: Seq<char>, p: Seq<char>) -> Seq<Seq<char>> {
    split_from(t, p, 0, 0)
}

/// The segments can be told apart again after being joined with `p`: no occurrence of `p`
/// begins inside a segment, so that the first one after each segment is the separator.
pub open spec fn separable(segs: Seq<Seq<char>>, p: Seq<char>) -> bool {
    &&& segs.len() > 0
    &&& (segs.len() > 1 ==> p.len() > 0)
    &&& forall|k: int|
        0 <= k < segs.len() - 1 ==> !occurs_in(#[trigger] segs[k] + p.drop_last(), p)
    &&& (p.len() > 0 ==> !occurs_in(segs.last(), p))
}

pub open spec fn view_segments(v: Seq<Vec<char>>) -> Seq<Seq<char>> {
    v.map_values(|s: Vec<char>| s@)
}

proof fn lemma_split_skip(t: Seq<char>, p: Seq<char>, s: int, i: int, e: int)
    requires
        p.len() > 0,
        0 <= s <= i <= e <= t.len() - p.len() + 1,
        forall|j: int| i <= j < e ==> !occurs_at(t, p, j),
    ensures
        split_from(t, p, s, i) == split_from(t, p, s, e),
    decreases e - i,
{
    if i < e {
        lemma_split_skip(t, p, s, i + 1, e);
    }
}

proof fn lemma_split_shift(t: Seq<char>, p: Seq<char>, s: int, i: int, d: int)
    requires
        0 <= d <= s <= i,
        i <= t.len(),
    ensures
        split_from(t, p, s, i) == split_from(t.skip(d), p, s - d, i - d),
    decreases t.len() - i,
{
    let u = t.skip(d);
    if p.len() == 0 || i + p.len() > t.len() {
        assert(t.subrange(s, t.len() as int) =~= u.subrange(s - d, u.len() as int));
    } else {
        assert(t.subrange(i, i + p.len()) =~= u.subrange(i - d, i - d + p.len()));
        if occurs_at(t, p, i) {
            assert(t.subrange(s, i) =~= u.subrange(s - d, i - d));
            lemma_split_shift(t, p, i + p.len(), i + p.len(), d);
        } else {
            lemma_split_shift(t, p, s, i + 1, d);
        }
    }
}

pub proof fn lemma_split_nonempty(t: Seq<char>, p: Seq<char>, s: int, i: int)
    ensures
        split_from(t, p, s, i).len() > 0,
    decreases t.len() - i,
{
    if p.len() == 0 || i < 0 || i + p.len() > t.len() {
    } else if occurs_at(t, p, i) {
        lemma_split_nonempty(t, p, i + p.len(), i + p.len());
    } else {
        lemma_split_nonempty(t, p, s, i + 1);
    }
}

/// No piece of a split holds the separator.
pub proof fn lemma_split_pieces_free(t: Seq<char>, p: Seq<char>, s: int, i: int)
    requires
        p.len() > 0,
        0 <= s <= i <= t.len(),
        forall|q: int| s <= q < i ==> !occurs_at(t, p, q),
    ensures
        forall|k: int|
            0 <= k < split_from(t, p, s, i).len() ==> !occurs_in(
                #[trigger] split_from(t, p, s, i)[k],
                p,
            ),
    decreases t.len() - i,
{
    let r = split_from(t, p, s, i);
    if i + p.len() > t.len() {
        let piece = t.subrange(s, t.len() as int);
        assert(r == seq![piece]);
        assert forall|q: int| !occurs_at(piece, p, q) by {
            if occurs_at(piece, p, q) {
                assert(piece.subrange(q, q + p.len()) =~= t.subrange(s + q, s + q + p.len()));
                assert(occurs_at(t, p, s + q));
            }
        }
    } else if occurs_at(t, p, i) {
        let piece = t.subrange(s, i);
        assert forall|q: int| !occurs_at(piece, p, q) by {
            if occurs_at(piece, p, q) {
                assert(piece.subrange(q, q + p.len()) =~= t.subrange(s + q, s + q + p.len()));
                assert(occurs_at(t, p, s + q));
            }
        }
        lemma_split_pieces_free(t, p, i + p.len(), i + p.len());
        let rest = split_from(t, p, i + p.len(), i + p.len());
        assert(r == seq![piece] + rest);
        assert forall|k: int| 0 <= k < r.len() implies !occurs_in(#[trigger] r[k], p) by {
            if k > 0 {
                assert(r[k] == rest[k - 1]);
            }
        }
    } else {
        assert(r == split_from(t, p, s, i + 1));
        lemma_split_pieces_free(t, p, s, i + 1);
    }
}

/// A join taken from its first segment.
pub proof fn lemma_join_front(segs: Seq<Seq<char>>, p: Seq<char>)
    requires
        segs.len() >= 2,
    ensures
        join(segs, p) == segs[0] + p + join(segs.drop_first(), p),
    decreases segs.len(),
{
    if segs.len() == 2 {
        assert(segs.drop_last() =~= seq![segs[0]]);
        assert(segs.drop_first() =~= seq![segs[1]]);
        assert(join(segs.drop_last(), p) == segs[0]);
        assert(join(segs.drop_first(), p) == segs[1]);
    } else {
        let front = segs.drop_last();
        let tail = segs.drop_first();
        lemma_join_front(front, p);
        assert(front.drop_first() =~= tail.drop_last());
        assert(tail.last() == segs.last());
        assert(front[0] == segs[0]);
        assert(join(tail, p) == join(tail.drop_last(), p) + p + tail.last());
        assert(join(segs, p) == join(front, p) + p + segs.last());
        assert(join(segs, p) =~= segs[0] + p + join(tail, p));
    }
}

/// Joining segments with a placeholder and splitting the unchanged result on it gives the
/// segments back, whenever the placeholder can be told apart from what the segments hold.
pub proof fn lemma_split_join(segs: Seq<Seq<char>>, p: Seq<char>)
    requires
        separable(segs, p),
    ensures
        split(join(segs, p), p) == segs,
    decreases segs.len(),
{
    let t = join(segs, p);
    if segs.len() == 1 {
        if p.len() > 0 && p.len() <= t.len() {
            assert forall|j: int| 0 <= j < t.len() - p.len() + 1 implies !occurs_at(t, p, j) by {
                if occurs_at(t, p, j) {
                    assert(occurs_in(segs.last(), p));
                }
            }
            lemma_split_skip(t, p, 0, 0, t.len() - p.len() + 1);
        }
        assert(t.subrange(0, t.len() as int) =~= t);
        assert(split(t, p) =~= segs);
    } else {
        lemma_join_front(segs, p);
        let s0 = segs[0];
        let rest = segs.drop_first();
        let n = s0.len() as int;
        let head = s0 + p.drop_last();
        assert(!occurs_in(head, p));
        assert forall|j: int| 0 <= j < n implies !occurs_at(t, p, j) by {
            if occurs_at(t, p, j) {
                assert(t.subrange(j, j + p.len()) =~= head.subrange(j, j + p.len()));
                assert(occurs_at(head, p, j));
            }
        }
        assert(t.subrange(n, n + p.len()) =~= p);
        lemma_split_skip(t, p, 0, 0, n);
        assert(t.subrange(0, n) =~= s0);
        lemma_split_shift(t, p, n + p.len(), n + p.len(), n + p.len());
        assert(t.skip(n + p.len()) =~= join(rest, p));
        assert forall|k: int| 0 <= k < rest.len() - 1 implies !occurs_in(
            #[trigger] rest[k] + p.drop_last(),
            p,
        ) by {
            assert(rest[k] == segs[k + 1]);
        }
        lemma_split_join(rest, p);
        assert(split(t, p) =~= seq![s0] + rest);
        assert(seq![s0] + rest =~= segs);
    }
}

/// Whether `p` stands in `t` at position `i`.
pub fn matches_at(t: &Vec<char>, p: &Vec<char>, i: usize) -> (r: bool)
    requires
        i + p.len() <= t.len(),
    ensures
        r == occurs_at(t@, p@, i as int),
{
    let mut k: usize = 0;
    while k < p.len()
        invariant
            k <= p.len(),
            i + p.len() <= t.len(),
            forall|j: int| 0 <= j < k ==> t@[i + j] == p@[j],
        decreases p.len() - k,
    {
        if t[i + k] != p[k] {
            assert(t@.subrange(i as int, i + p.len())[k as int] != p@[k as int]);
            return false;
        }
        k = k + 1;
    }
    assert(t@.subrange(i as int, i + p.len()) =~= p@);
    true
}

/// A copy of `t[start..end]`.
pub fn slice_of(t: &Vec<char>, start: usize, end: usize) -> (r: Vec<char>)
    requires
        start <= end <= t.len(),
    ensures
        r@ == t@.subrange(start as int, end as int),
{
    let mut r: Vec<char> = Vec::new();
    let mut k: usize = start;
    while k < end
        invariant
            start <= k <= end <= t.len(),
            r@ == t@.subrange(start as int, k as int),
        decreases end - k,
    {
        r.push(t[k]);
        k = k + 1;
        assert(r@ =~= t@.subrange(start as int, k as int));
    }
    r
}

/// Joins the segments with the placeholder between each two of them.
pub fn join_segments(segs: &Vec<Vec<char>>, p: &Vec<char>) -> (r: Vec<char>)
    ensures
        r@ == join(view_segments(segs@), p@),
{
    let mut r: Vec<char> = Vec::new();
    let mut k: usize = 0;
    while k < segs.len()
        invariant
            k <= segs.len(),
            r@ == join(view_segments(segs@.take(k as int)), p@),
        decreases segs.len() - k,
    {
        if k > 0 {
            let mut j: usize = 0;
            let ghost before = r@;
            while j < p.len()
                invariant
                    j <= p.len(),
                    r@ == before + p@.take(j as int),
                decreases p.len() - j,
            {
                r.push(p[j]);
                j = j + 1;
                assert(r@ =~= before + p@.take(j as int));
            }
        }
        let ghost before = r@;
        let seg = &segs[k];
        let mut j: usize = 0;
        while j < seg.len()
            invariant
                j <= seg.len(),
                r@ == before + seg@.take(j as int),
            decreases seg.len() - j,
        {
            r.push(seg[j]);
            j = j + 1;
            assert(r@ =~= before + seg@.take(j as int));
        }
        proof {
            let prev = view_segments(segs@.take(k as int));
            let next = view_segments(segs@.take(k + 1));
            assert(next.drop_last() =~= prev);
            assert(next.last() == seg@);
            assert(seg@.take(seg@.len() as int) =~= seg@);
            assert(p@.take(p@.len() as int) =~= p@);
            if k == 0 {
                assert(before =~= Seq::<char>::empty());
                assert(r@ =~= join(next, p@));
            }
        }
        k = k + 1;
    }
    assert(segs@.take(segs.len() as int) =~= segs@);
    r
}

/// Splits `t` on every occurrence of `p`, from left to right.
pub fn split_text(t: &Vec<char>, p: &Vec<char>) -> (r: Vec<Vec<char>>)
    ensures
        view_segments(r@) == split(t@, p@),
{
    let mut r: Vec<Vec<char>> = Vec::new();
    if p.len() == 0 || p.len() > t.len() {
        let whole = slice_of(t, 0, t.len());
        r.push(whole);
        assert(view_segments(r@) =~= split(t@, p@));
        return r;
    }
    let mut start: usize = 0;
    let mut i: usize = 0;
    while i <= t.len() - p.len()
        invariant
            0 < p.len() <= t.len(),
            start <= i <= t.len(),
            view_segments(r@) + split_from(t@, p@, start as int, i as int) == split(t@, p@),
        decreases t.len() - i,
    {
        if matches_at(t, p, i) {
            let piece = slice_of(t, start, i);
            let ghost old_r = r@;
            r.push(piece);
            proof {
                assert(view_segments(r@) =~= view_segments(old_r) + seq![t@.subrange(start as int, i as int)]);
                assert(view_segments(r@) + split_from(t@, p@, (i + p.len()) as int, (i + p.len()) as int)
                    =~= view_segments(old_r) + split_from(t@, p@, start as int, i as int));
            }
            i = i + p.len();
            start = i;
        } else {
            i = i + 1;
        }
    }
    let piece = slice_of(t, start, t.len());
    let ghost old_r = r@;
    r.push(piece);
    assert(view_segments(r@) =~= view_segments(old_r) + split_from(t@, p@, start as int, i as int));
    r
}

} // verus!
