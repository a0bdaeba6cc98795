//! Removing the indentation that all non-blank lines of a text share.
use vstd::prelude::*;
use crate::codec::{
    join, join_segments, lemma_split_join, lemma_split_nonempty, lemma_split_pieces_free,
    occurs_at, occurs_in, split, split_text, view_segments,
};

verus! {

/// A character of Unicode's `White_Space` property, as `char::is_whitespace` tests it.
pub open spec fn is_space(c: char) -> bool {
    let u = c as u32;
    (0x9 <= u <= 0xD) || u == 0x20 || u == 0x85 || u == 0xA0 || u == 0x1680 || (0x2000 <= u
        <= 0x200A) || u == 0x2028 || u == 0x2029 || u == 0x202F || u == 0x205F || u == 0x3000
}

/// The number of whitespace characters that begin the line.
pub open spec fn indent_of(l: Seq<char>) -> nat
    decreases l.len(),
{
    if l.len() > 0 && is_space(l[0]) {
        1 + indent_of(l.drop_first())
    } else {
        0
    }
}

/// A line that holds whitespace only (or nothing).
pub open spec fn is_blank(l: Seq<char>) -> bool {
    indent_of(l) == l.len()
}

/// The least indentation among the non-blank lines; `None` when every line is blank.
pub open spec fn floor_of(ls: Seq<Seq<char>>) -> Option<nat>
    decreases ls.len(),
{
    if ls.len() == 0 {
        None
    } else {
        let rest = floor_of(ls.drop_last());
        let l = ls.last();
        if is_blank(l) {
            rest
        } else {
            match rest {
                None => Some(indent_of(l)),
                Some(m) => Some(if indent_of(l) < m { indent_of(l) } else { m }),
            }
        }
    }
}

/// The amount stripped from each non-blank line.
pub open spec fn floor_or_zero(ls: Seq<Seq<char>>) -> nat {
    match floor_of(ls) {
        Some(m) => m,
        None => 0,
    }
}

/// A blank line is kept as it is; another loses its first `m` characters.
pub open spec fn strip_line(l: Seq<char>, m: nat) -> Seq<char> {
    if is_blank(l) {
        l
    } else {
        l.skip(m as int)
    }
}

pub open spec fn dedent_lines(ls: Seq<Seq<char>>) -> Seq<Seq<char>> {
    ls.map_values(|l: Seq<char>| strip_line(l, floor_or_zero(ls)))
}

pub open spec fn newline() -> Seq<char> {
    seq!['\n']
}

/// The text cut into lines on `\n`. As with `str::lines`, an empty piece after the last
/// `\n` (or an empty text) is no line.
pub open spec fn lines_of(t: Seq<char>) -> Seq<Seq<char>> {
    let pieces = split(t, newline());
    if pieces.last().len() == 0 {
        pieces.drop_last()
    } else {
        pieces
    }
}

/// The text with the shared indentation of its non-blank lines removed.
pub open spec fn dedent(t: Seq<char>) -> Seq<char> {
    join(dedent_lines(lines_of(t)), newline())
}

proof fn lemma_indent_le(l: Seq<char>)
    ensures
        indent_of(l) <= l.len(),
        forall|j: int| 0 <= j < indent_of(l) ==> is_space(#[trigger] l[j]),
        indent_of(l) < l.len() ==> !is_space(l[indent_of(l) as int]),
    decreases l.len(),
{
    if l.len() > 0 && is_space(l[0]) {
        lemma_indent_le(l.drop_first());
        assert forall|j: int| 0 <= j < indent_of(l) implies is_space(#[trigger] l[j]) by {
            if j > 0 {
                assert(l[j] == l.drop_first()[j - 1]);
            }
        }
    }
}

/// Counting whitespace from the front stops at the first character that is not.
proof fn lemma_indent_is(l: Seq<char>, k: nat)
    requires
        k <= l.len(),
        forall|j: int| 0 <= j < k ==> is_space(#[trigger] l[j]),
        k == l.len() || !is_space(l[k as int]),
    ensures
        indent_of(l) == k,
    decreases k,
{
    if k > 0 {
        let d = l.drop_first();
        assert forall|j: int| 0 <= j < k - 1 implies is_space(#[trigger] d[j]) by {
            assert(d[j] == l[j + 1]);
        }
        if k - 1 < d.len() {
            assert(d[k - 1] == l[k as int]);
        }
        lemma_indent_is(d, (k - 1) as nat);
    }
}

/// Dropping part of the indentation keeps the rest of it, and whether the line is blank.
proof fn lemma_indent_skip(l: Seq<char>, k: nat)
    requires
        k <= indent_of(l),
    ensures
        indent_of(l.skip(k as int)) == indent_of(l) - k,
        is_blank(l.skip(k as int)) == is_blank(l),
{
    lemma_indent_le(l);
    let s = l.skip(k as int);
    let n = (indent_of(l) - k) as nat;
    assert forall|j: int| 0 <= j < n implies is_space(#[trigger] s[j]) by {
        assert(s[j] == l[j + k]);
    }
    if n < s.len() {
        assert(s[n as int] == l[indent_of(l) as int]);
    }
    lemma_indent_is(s, n);
}

proof fn lemma_floor(ls: Seq<Seq<char>>)
    ensures
        floor_of(ls) is None <==> (forall|i: int| 0 <= i < ls.len() ==> is_blank(#[trigger] ls[i])),
        floor_of(ls) matches Some(m) ==> (forall|i: int|
            0 <= i < ls.len() && !is_blank(#[trigger] ls[i]) ==> m <= indent_of(ls[i])),
        floor_of(ls) matches Some(m) ==> (exists|i: int|
            0 <= i < ls.len() && !is_blank(#[trigger] ls[i]) && indent_of(ls[i]) == m),
    decreases ls.len(),
{
    if ls.len() > 0 {
        let front = ls.drop_last();
        let last = ls.len() - 1;
        lemma_floor(front);
        assert(ls.last() == ls[last]);
        assert forall|i: int| 0 <= i < front.len() implies #[trigger] front[i] == ls[i] by {}
        if is_blank(ls[last]) {
            assert(floor_of(ls) == floor_of(front));
            match floor_of(front) {
                Some(m) => {
                    let i = choose|i: int|
                        0 <= i < front.len() && !is_blank(#[trigger] front[i]) && indent_of(
                            front[i],
                        ) == m;
                    assert(ls[i] == front[i]);
                    assert forall|j: int|
                        0 <= j < ls.len() && !is_blank(#[trigger] ls[j]) implies m <= indent_of(
                        ls[j],
                    ) by {
                        assert(j < last);
                        assert(front[j] == ls[j]);
                    }
                },
                None => {
                    assert forall|j: int| 0 <= j < ls.len() implies is_blank(#[trigger] ls[j]) by {
                        if j < last {
                            assert(front[j] == ls[j]);
                        }
                    }
                },
            }
        } else {
            let d = indent_of(ls[last]);
            match floor_of(front) {
                Some(m) => {
                    let f = if d < m { d } else { m };
                    assert(floor_of(ls) == Some(f));
                    let i = choose|i: int|
                        0 <= i < front.len() && !is_blank(#[trigger] front[i]) && indent_of(
                            front[i],
                        ) == m;
                    assert(ls[i] == front[i]);
                    assert forall|j: int|
                        0 <= j < ls.len() && !is_blank(#[trigger] ls[j]) implies f <= indent_of(
                        ls[j],
                    ) by {
                        if j < last {
                            assert(front[j] == ls[j]);
                        }
                    }
                    if d < m {
                        assert(!is_blank(ls[last]) && indent_of(ls[last]) == f);
                    } else {
                        assert(!is_blank(ls[i]) && indent_of(ls[i]) == f);
                    }
                },
                None => {
                    assert(floor_of(ls) == Some(d));
                    assert forall|j: int|
                        0 <= j < ls.len() && !is_blank(#[trigger] ls[j]) implies d <= indent_of(
                        ls[j],
                    ) by {
                        if j < last {
                            assert(front[j] == ls[j]);
                        }
                    }
                },
            }
        }
    }
}

/// Lines taken apart on `\n` hold no `\n`, and the last one is not empty.
proof fn lemma_lines(t: Seq<char>)
    ensures
        forall|k: int| 0 <= k < lines_of(t).len() ==> !occurs_in(#[trigger] lines_of(t)[k], newline()),
{
    let pieces = split(t, newline());
    lemma_split_nonempty(t, newline(), 0, 0);
    lemma_split_pieces_free(t, newline(), 0, 0);
    assert forall|k: int| 0 <= k < lines_of(t).len() implies !occurs_in(#[trigger] lines_of(t)[k], newline()) by {
        assert(lines_of(t)[k] == pieces[k]);
    }
}

/// Lines that hold no `\n`, the last of them not empty, come back unchanged from joining
/// them and cutting the result.
proof fn lemma_lines_join(ls: Seq<Seq<char>>)
    requires
        forall|k: int| 0 <= k < ls.len() ==> !occurs_in(#[trigger] ls[k], newline()),
        ls.len() > 0 ==> ls.last().len() > 0,
    ensures
        lines_of(join(ls, newline())) == ls,
{
    if ls.len() == 0 {
        let e = Seq::<char>::empty();
        assert(join(ls, newline()) == e);
        assert(split(e, newline()) == seq![e.subrange(0, 0)]);
        assert(lines_of(e) =~= ls);
        return;
    }
    lemma_split_nonempty(join(ls, newline()), newline(), 0, 0);
    assert(newline().drop_last() =~= Seq::<char>::empty());
    assert forall|k: int| 0 <= k < ls.len() - 1 implies !occurs_in(
        #[trigger] ls[k] + newline().drop_last(),
        newline(),
    ) by {
        assert(ls[k] + newline().drop_last() =~= ls[k]);
    }
    assert(ls.last() == ls[ls.len() - 1]);
    lemma_split_join(ls, newline());
}

/// A line that is a suffix of one without `\n` holds none either.
proof fn lemma_skip_free(l: Seq<char>, k: int)
    requires
        0 <= k <= l.len(),
        !occurs_in(l, newline()),
    ensures
        !occurs_in(l.skip(k), newline()),
{
    let s = l.skip(k);
    assert forall|q: int| !occurs_at(s, newline(), q) by {
        if occurs_at(s, newline(), q) {
            assert(s.subrange(q, q + 1) =~= l.subrange(q + k, q + k + 1));
            assert(occurs_at(l, newline(), q + k));
        }
    }
}

/// The text's last line is empty, after at least one other line: it ends in two line
/// breaks. Dedenting keeps that last empty line, and cutting the result into lines drops it.
pub open spec fn ends_with_empty_line(t: Seq<char>) -> bool {
    lines_of(t).len() >= 2 && lines_of(t).last().len() == 0
}

/// Dedenting twice gives what dedenting once gives, for every text that does not end in an
/// empty line.
pub proof fn lemma_dedent_idempotent(t: Seq<char>)
    requires
        !ends_with_empty_line(t),
    ensures
        dedent(dedent(t)) == dedent(t),
{
    let ls = lines_of(t);
    let m = floor_or_zero(ls);
    let out = dedent_lines(ls);
    lemma_lines(t);
    let e = Seq::<char>::empty();
    assert(split(e, newline()) == seq![e.subrange(0, 0)]);
    assert(lines_of(e) =~= Seq::<Seq<char>>::empty());
    assert(dedent(e) == e) by {
        assert(dedent_lines(Seq::<Seq<char>>::empty()) =~= Seq::<Seq<char>>::empty());
    }
    if ls.len() == 1 && ls[0].len() == 0 {
        assert(is_blank(ls[0]));
        assert(out[0] == ls[0]);
        assert(dedent(t) == out[0]);
        assert(out[0] =~= e);
        return;
    }
    lemma_floor(ls);
    assert forall|k: int| 0 <= k < out.len() implies !occurs_in(#[trigger] out[k], newline()) && (
    is_blank(out[k]) == is_blank(ls[k])) && (!is_blank(ls[k]) ==> indent_of(out[k]) == indent_of(
        ls[k],
    ) - m) by {
        assert(out[k] == strip_line(ls[k], m));
        if !is_blank(ls[k]) {
            lemma_indent_le(ls[k]);
            lemma_indent_skip(ls[k], m);
            lemma_skip_free(ls[k], m as int);
        }
    }
    if out.len() > 0 {
        let last = out.len() - 1;
        assert(out.last() == strip_line(ls[last], m));
        assert(ls.last() == ls[last]);
        if !is_blank(ls[last]) {
            lemma_indent_le(out.last());
        }
    }
    lemma_lines_join(out);
    lemma_floor(out);
    assert(floor_or_zero(out) == 0) by {
        match floor_of(ls) {
            Some(f) => {
                let i = choose|i: int|
                    0 <= i < ls.len() && !is_blank(#[trigger] ls[i]) && indent_of(ls[i]) == f;
                assert(!is_blank(out[i]));
            },
            None => {
                assert forall|i: int| 0 <= i < out.len() implies is_blank(#[trigger] out[i]) by {
                    assert(is_blank(ls[i]));
                }
            },
        }
    }
    assert forall|k: int| 0 <= k < out.len() implies #[trigger] strip_line(out[k], 0) == out[k] by {
        assert(out[k].skip(0) =~= out[k]);
    }
    assert(dedent_lines(out) =~= out);
}

/// Whether `c` is whitespace.
pub fn is_space_char(c: char) -> (r: bool)
    ensures
        r == is_space(c),
{
    let u = c as u32;
    (0x9 <= u && u <= 0xD) || u == 0x20 || u == 0x85 || u == 0xA0 || u == 0x1680 || (0x2000 <= u
        && u <= 0x200A) || u == 0x2028 || u == 0x2029 || u == 0x202F || u == 0x205F || u == 0x3000
}

/// The number of whitespace characters that begin `l`.
pub fn leading_spaces(l: &Vec<char>) -> (r: usize)
    ensures
        r == indent_of(l@),
{
    let mut k: usize = 0;
    while k < l.len() && is_space_char(l[k])
        invariant
            k <= l.len(),
            forall|j: int| 0 <= j < k ==> is_space(#[trigger] l@[j]),
        decreases l.len() - k,
    {
        k = k + 1;
    }
    proof {
        lemma_indent_is(l@, k as nat);
    }
    k
}

/// Removes from every non-blank line of `t` the least indentation found among them.
/// Blank lines are kept as they are.
pub fn dedent_text(t: &Vec<char>) -> (r: Vec<char>)
    ensures
        r@ == dedent(t@),
{
    let nl: Vec<char> = vec!['\n'];
    assert(nl@ =~= newline());
    let mut lines = split_text(t, &nl);
    proof {
        lemma_split_nonempty(t@, newline(), 0, 0);
    }
    if lines[lines.len() - 1].len() == 0 {
        let ghost before = view_segments(lines@);
        lines.pop();
        assert(view_segments(lines@) =~= before.drop_last());
    }
    let ghost ls = view_segments(lines@);
    assert(ls == lines_of(t@));
    let mut floor: Option<usize> = None;
    let mut k: usize = 0;
    while k < lines.len()
        invariant
            k <= lines.len(),
            ls == view_segments(lines@),
            match floor {
                Some(f) => floor_of(ls.take(k as int)) == Some(f as nat),
                None => floor_of(ls.take(k as int)) is None,
            },
        decreases lines.len() - k,
    {
        let n = leading_spaces(&lines[k]);
        proof {
            assert(ls.take(k + 1).drop_last() =~= ls.take(k as int));
            assert(ls.take(k + 1).last() == lines@[k as int]@);
            lemma_indent_le(lines@[k as int]@);
        }
        if n < lines[k].len() {
            floor = match floor {
                None => Some(n),
                Some(f) => Some(if n < f { n } else { f }),
            };
        }
        k = k + 1;
    }
    assert(ls.take(lines.len() as int) =~= ls);
    let m: usize = match floor {
        Some(f) => f,
        None => 0,
    };
    let mut out: Vec<Vec<char>> = Vec::new();
    let mut k: usize = 0;
    while k < lines.len()
        invariant
            k <= lines.len(),
            ls == view_segments(lines@),
            m == floor_or_zero(ls),
            view_segments(out@) == dedent_lines(ls).take(k as int),
        decreases lines.len() - k,
    {
        let line = &lines[k];
        let n = leading_spaces(line);
        proof {
            assert(ls[k as int] == line@);
            lemma_floor(ls);
            lemma_indent_le(line@);
        }
        let stripped = if n < line.len() {
            proof {
                assert(!is_blank(ls[k as int]));
                assert(m <= indent_of(ls[k as int]));
            }
            let piece = crate::codec::slice_of(line, m, line.len());
            assert(piece@ =~= strip_line(ls[k as int], m as nat));
            piece
        } else {
            let piece = crate::codec::slice_of(line, 0, line.len());
            assert(piece@ =~= strip_line(ls[k as int], m as nat));
            piece
        };
        assert(dedent_lines(ls)[k as int] == strip_line(ls[k as int], m as nat));
        let ghost prev = out@;
        out.push(stripped);
        assert(view_segments(out@) =~= view_segments(prev).push(stripped@));
        assert(dedent_lines(ls).take(k + 1) =~= dedent_lines(ls).take(k as int).push(
            dedent_lines(ls)[k as int],
        ));
        k = k + 1;
    }
    assert(dedent_lines(ls).take(lines.len() as int) =~= dedent_lines(ls));
    join_segments(&out, &nl)
}

} // verus!
