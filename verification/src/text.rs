use vstd::prelude::*;

verus! {

/// Line separator of the server-list and package-index formats.
pub const NL: u8 = 10;

/// Horizontal whitespace that separates tokens on a single line.
pub open spec fn is_space(b: u8) -> bool {
    b == 32 || b == 9 || b == 13 || b == 11 || b == 12
}

pub fn is_space_byte(b: u8) -> (r: bool)
    ensures
        r == is_space(b),
{
    b == 32 || b == 9 || b == 13 || b == 11 || b == 12
}

/// The lines of `s`: the maximal separator-free segments, in order. A byte
/// sequence with no separator is a single line; a trailing separator yields a
/// final empty line.
pub open spec fn split_lines(s: Seq<u8>) -> Seq<Seq<u8>>
    decreases s.len(),
{
    if s.len() == 0 {
        seq![Seq::<u8>::empty()]
    } else if s[0] == NL {
        seq![Seq::<u8>::empty()] + split_lines(s.drop_first())
    } else {
        let rest = split_lines(s.drop_first());
        seq![seq![s[0]] + rest[0]] + rest.drop_first()
    }
}

pub proof fn lemma_split_lines_len(s: Seq<u8>)
    ensures
        split_lines(s).len() >= 1,
    decreases s.len(),
{
    if s.len() > 0 {
        lemma_split_lines_len(s.drop_first());
    }
}

/// A separator-free sequence is a single line.
pub proof fn lemma_split_lines_no_nl(s: Seq<u8>)
    requires
        forall|i: int| 0 <= i < s.len() ==> s[i] != NL,
    ensures
        split_lines(s) == seq![s],
    decreases s.len(),
{
    if s.len() == 0 {
        assert(split_lines(s) =~~= seq![s]);
    } else {
        assert forall|i: int| 0 <= i < s.drop_first().len() implies s.drop_first()[i] != NL by {
            assert(s.drop_first()[i] == s[i + 1]);
        }
        lemma_split_lines_no_nl(s.drop_first());
        lemma_split_lines_len(s.drop_first());
        assert(seq![s[0]] + s.drop_first() =~= s);
        assert(split_lines(s) =~~= seq![s]);
    }
}

/// Splitting distributes over a separator: the lines of `x ++ [NL] ++ y` are
/// the lines of `x` followed by the lines of `y`.
pub proof fn lemma_split_lines_append(x: Seq<u8>, y: Seq<u8>)
    ensures
        split_lines(x + seq![NL] + y) == split_lines(x) + split_lines(y),
    decreases x.len(),
{
    let s = x + seq![NL] + y;
    if x.len() == 0 {
        assert(s =~= seq![NL] + y);
        assert(s[0] == NL);
        assert(s.drop_first() =~= y);
        assert(split_lines(s) =~~= split_lines(x) + split_lines(y));
    } else {
        assert(s[0] == x[0]);
        assert(s.drop_first() =~= x.drop_first() + seq![NL] + y);
        lemma_split_lines_append(x.drop_first(), y);
        lemma_split_lines_len(x.drop_first());
        lemma_split_lines_len(y);
        let rx = split_lines(x.drop_first());
        let rest = rx + split_lines(y);
        if x[0] == NL {
            assert(split_lines(s) =~~= split_lines(x) + split_lines(y));
        } else {
            assert(rest[0] == rx[0]);
            assert(rest.drop_first() =~= rx.drop_first() + split_lines(y));
            assert(split_lines(s) =~~= split_lines(x) + split_lines(y));
        }
    }
}

/// Copy of the bytes of `v` in positions `[a, b)`.
pub fn subvec(v: &Vec<u8>, a: usize, b: usize) -> (r: Vec<u8>)
    requires
        a <= b <= v@.len(),
    ensures
        r@ == v@.subrange(a as int, b as int),
{
    let mut r: Vec<u8> = Vec::new();
    let mut k: usize = a;
    while k < b
        invariant
            a <= k <= b <= v@.len(),
            r@ == v@.subrange(a as int, k as int),
        decreases b - k,
    {
        r.push(v[k]);
        proof {
            assert(v@.subrange(a as int, k + 1 as int) =~= v@.subrange(a as int, k as int).push(
                v@[k as int],
            ));
        }
        k += 1;
    }
    r
}

/// Byte-for-byte equality of two byte vectors.
pub fn bytes_eq(a: &Vec<u8>, b: &Vec<u8>) -> (r: bool)
    ensures
        r == (a@ == b@),
{
    if a.len() != b.len() {
        return false;
    }
    let mut k: usize = 0;
    while k < a.len()
        invariant
            k <= a@.len(),
            a@.len() == b@.len(),
            forall|j: int| 0 <= j < k ==> a@[j] == b@[j],
        decreases a@.len() - k,
    {
        if a[k] != b[k] {
            return false;
        }
        k += 1;
    }
    proof {
        assert(a@ =~= b@);
    }
    true
}

/// Appends the bytes of `src` to `dst`.
pub fn push_all(dst: &mut Vec<u8>, src: &Vec<u8>)
    ensures
        final(dst)@ == old(dst)@ + src@,
{
    let mut k: usize = 0;
    proof {
        assert(dst@ + src@.take(0) =~= dst@);
    }
    while k < src.len()
        invariant
            k <= src@.len(),
            dst@ == old(dst)@ + src@.take(k as int),
        decreases src@.len() - k,
    {
        dst.push(src[k]);
        proof {
            assert(old(dst)@ + src@.take(k + 1) =~= (old(dst)@ + src@.take(k as int)).push(
                src@[k as int],
            ));
        }
        k += 1;
    }
    proof {
        assert(src@.take(src@.len() as int) =~= src@);
    }
}

/// Appends the bytes of the slice `src` to `dst`.
pub fn push_slice(dst: &mut Vec<u8>, src: &[u8])
    ensures
        final(dst)@ == old(dst)@ + src@,
{
    let mut k: usize = 0;
    proof {
        assert(dst@ + src@.take(0) =~= dst@);
    }
    while k < src.len()
        invariant
            k <= src@.len(),
            dst@ == old(dst)@ + src@.take(k as int),
        decreases src@.len() - k,
    {
        dst.push(src[k]);
        proof {
            assert(old(dst)@ + src@.take(k + 1) =~= (old(dst)@ + src@.take(k as int)).push(
                src@[k as int],
            ));
        }
        k += 1;
    }
    proof {
        assert(src@.take(src@.len() as int) =~= src@);
    }
}

/// The lines of `text`, as separate byte vectors.
pub fn split_lines_vec(text: &Vec<u8>) -> (lines: Vec<Vec<u8>>)
    ensures
        lines@.map_values(|l: Vec<u8>| l@) == split_lines(text@),
{
    let mut lines: Vec<Vec<u8>> = Vec::new();
    let mut start: usize = 0;
    let mut i: usize = 0;
    proof {
        assert(text@.skip(0) =~= text@);
        assert(lines@.map_values(|l: Vec<u8>| l@) + split_lines(text@) =~= split_lines(text@));
    }
    while i < text.len()
        invariant
            start <= i <= text@.len(),
            forall|j: int| start <= j < i ==> text@[j] != NL,
            split_lines(text@) == lines@.map_values(|l: Vec<u8>| l@) + split_lines(
                text@.skip(start as int),
            ),
        decreases text@.len() - i,
    {
        if text[i] == NL {
            let line = subvec(text, start, i);
            proof {
                let seg = text@.subrange(start as int, i as int);
                assert(text@.skip(start as int) =~= seg + seq![NL] + text@.skip(i + 1 as int));
                lemma_split_lines_append(seg, text@.skip(i + 1 as int));
                lemma_split_lines_no_nl(seg);
                assert((lines@.push(line)).map_values(|l: Vec<u8>| l@) =~= lines@.map_values(
                    |l: Vec<u8>| l@,
                ).push(line@));
            }
            lines.push(line);
            start = i + 1;
        }
        i += 1;
    }
    let line = subvec(text, start, text.len());
    proof {
        let seg = text@.subrange(start as int, text@.len() as int);
        assert(seg =~= text@.skip(start as int));
        lemma_split_lines_no_nl(seg);
        assert((lines@.push(line)).map_values(|l: Vec<u8>| l@) =~= lines@.map_values(
            |l: Vec<u8>| l@,
        ).push(line@));
    }
    lines.push(line);
    lines
}

} // verus!
