use vstd::prelude::*;
use crate::text::{is_space, is_space_byte, split_lines, split_lines_vec, subvec};

verus! {

/// One entry of the package index: a package name and the URL it is served
/// from, both taken from a single line of the merged index.
#[derive(Debug, PartialEq, Eq)]
pub struct PackageEntry {
    pub name: Vec<u8>,
    pub url: Vec<u8>,
}

impl View for PackageEntry {
    type V = (Seq<u8>, Seq<u8>);

    open spec fn view(&self) -> (Seq<u8>, Seq<u8>) {
        (self.name@, self.url@)
    }
}

impl Clone for PackageEntry {
    fn clone(&self) -> (r: Self)
        ensures
            r@ == self@,
    {
        let r = PackageEntry { name: self.name.clone(), url: self.url.clone() };
        proof {
            assert(r.name@ =~= self.name@);
            assert(r.url@ =~= self.url@);
        }
        r
    }
}

/// Number of leading whitespace bytes of `s`.
pub open spec fn skip_spaces(s: Seq<u8>) -> int
    decreases s.len(),
{
    if s.len() == 0 {
        0
    } else if is_space(s[0]) {
        1 + skip_spaces(s.drop_first())
    } else {
        0
    }
}

pub proof fn lemma_skip_spaces(s: Seq<u8>)
    ensures
        0 <= skip_spaces(s) <= s.len(),
        forall|i: int| 0 <= i < skip_spaces(s) ==> is_space(s[i]),
        skip_spaces(s) < s.len() ==> !is_space(s[skip_spaces(s)]),
    decreases s.len(),
{
    if s.len() > 0 && is_space(s[0]) {
        lemma_skip_spaces(s.drop_first());
        assert forall|i: int| 0 <= i < skip_spaces(s) implies is_space(s[i]) by {
            if i > 0 {
                assert(is_space(s.drop_first()[i - 1]));
            }
        }
    }
}

/// Length of the leading whitespace-free token of `s`.
pub open spec fn token_end(s: Seq<u8>) -> int
    decreases s.len(),
{
    if s.len() == 0 {
        0
    } else if !is_space(s[0]) {
        1 + token_end(s.drop_first())
    } else {
        0
    }
}

pub proof fn lemma_token_end(s: Seq<u8>)
    ensures
        0 <= token_end(s) <= s.len(),
        forall|i: int| 0 <= i < token_end(s) ==> !is_space(s[i]),
        token_end(s) < s.len() ==> is_space(s[token_end(s)]),
    decreases s.len(),
{
    if s.len() > 0 && !is_space(s[0]) {
        lemma_token_end(s.drop_first());
        assert forall|i: int| 0 <= i < token_end(s) implies !is_space(s[i]) by {
            if i > 0 {
                assert(!is_space(s.drop_first()[i - 1]));
            }
        }
    }
}

/// A line of the index yields an entry exactly when it holds at least two
/// whitespace-delimited tokens: the name is the first, the URL the second.
pub open spec fn parse_line(line: Seq<u8>) -> Option<(Seq<u8>, Seq<u8>)> {
    let r1 = line.skip(skip_spaces(line));
    if r1.len() == 0 {
        None
    } else {
        let name = r1.take(token_end(r1));
        let r2 = r1.skip(token_end(r1));
        let r3 = r2.skip(skip_spaces(r2));
        if r3.len() == 0 {
            None
        } else {
            Some((name, r3.take(token_end(r3))))
        }
    }
}

/// The entries of a sequence of lines, in order; lines without two tokens are
/// dropped.
pub open spec fn parse_lines(ls: Seq<Seq<u8>>) -> Seq<(Seq<u8>, Seq<u8>)>
    decreases ls.len(),
{
    if ls.len() == 0 {
        Seq::empty()
    } else {
        match parse_line(ls[0]) {
            Some(e) => seq![e] + parse_lines(ls.drop_first()),
            None => parse_lines(ls.drop_first()),
        }
    }
}

pub proof fn lemma_parse_lines_append(a: Seq<Seq<u8>>, b: Seq<Seq<u8>>)
    ensures
        parse_lines(a + b) == parse_lines(a) + parse_lines(b),
    decreases a.len(),
{
    if a.len() == 0 {
        assert(a + b =~= b);
        assert(parse_lines(a) + parse_lines(b) =~= parse_lines(b));
    } else {
        assert((a + b).drop_first() =~= a.drop_first() + b);
        lemma_parse_lines_append(a.drop_first(), b);
        match parse_line(a[0]) {
            Some(e) => {
                assert(parse_lines(a + b) =~= parse_lines(a) + parse_lines(b));
            },
            None => {},
        }
    }
}

/// The package index described by the merged index text: the entries of its
/// lines, in order.
pub open spec fn parse_index(s: Seq<u8>) -> Seq<(Seq<u8>, Seq<u8>)> {
    parse_lines(split_lines(s))
}

/// First position at or after `from` holding a non-whitespace byte, or the
/// length of `line`.
pub(crate) fn scan_spaces(line: &Vec<u8>, from: usize) -> (r: usize)
    requires
        from <= line@.len(),
    ensures
        from <= r <= line@.len(),
        skip_spaces(line@.skip(from as int)) == r - from,
        r < line@.len() ==> !is_space(line@[r as int]),
{
    let mut k: usize = from;
    while k < line.len() && is_space_byte(line[k])
        invariant
            from <= k <= line@.len(),
            forall|j: int| from <= j < k ==> is_space(line@[j]),
        decreases line@.len() - k,
    {
        k += 1;
    }
    proof {
        let s = line@.skip(from as int);
        lemma_skip_spaces(s);
        assert forall|i: int| 0 <= i < k - from implies is_space(s[i]) by {
            assert(s[i] == line@[from + i]);
        }
        if k < line@.len() {
            assert(s[k - from] == line@[k as int]);
        }
    }
    k
}

/// First position at or after `from` holding a whitespace byte, or the length
/// of `line`.
fn scan_token(line: &Vec<u8>, from: usize) -> (r: usize)
    requires
        from <= line@.len(),
    ensures
        from <= r <= line@.len(),
        token_end(line@.skip(from as int)) == r - from,
        r < line@.len() ==> is_space(line@[r as int]),
{
    let mut k: usize = from;
    while k < line.len() && !is_space_byte(line[k])
        invariant
            from <= k <= line@.len(),
            forall|j: int| from <= j < k ==> !is_space(line@[j]),
        decreases line@.len() - k,
    {
        k += 1;
    }
    proof {
        let s = line@.skip(from as int);
        lemma_token_end(s);
        assert forall|i: int| 0 <= i < k - from implies !is_space(s[i]) by {
            assert(s[i] == line@[from + i]);
        }
        if k < line@.len() {
            assert(s[k - from] == line@[k as int]);
        }
    }
    k
}

/// The entry on one line of the index, if the line holds one.
pub fn parse_line_vec(line: &Vec<u8>) -> (r: Option<PackageEntry>)
    ensures
        r matches Some(e) ==> parse_line(line@) == Some(e@),
        r is None ==> parse_line(line@) is None,
{
    let a = scan_spaces(line, 0);
    proof {
        assert(line@.skip(0) =~= line@);
    }
    if a == line.len() {
        return None;
    }
    let b = scan_token(line, a);
    let name = subvec(line, a, b);
    let c = scan_spaces(line, b);
    proof {
        let l = line@;
        let r1 = l.skip(a as int);
        assert(name@ =~= r1.take(token_end(r1)));
        let r2 = r1.skip(token_end(r1));
        assert(r2 =~= l.skip(b as int));
        let r3 = r2.skip(skip_spaces(r2));
        assert(r3 =~= l.skip(c as int));
    }
    if c == line.len() {
        return None;
    }
    let d = scan_token(line, c);
    let url = subvec(line, c, d);
    proof {
        let l = line@;
        let r3 = l.skip(c as int);
        assert(url@ =~= r3.take(token_end(r3)));
    }
    Some(PackageEntry { name, url })
}

/// The package index held by the merged index text.
pub fn parse_package_list(text: &Vec<u8>) -> (idx: Vec<PackageEntry>)
    ensures
        idx@.map_values(|e: PackageEntry| e@) == parse_index(text@),
{
    let lines = split_lines_vec(text);
    let ghost lsv = lines@.map_values(|l: Vec<u8>| l@);
    let mut idx: Vec<PackageEntry> = Vec::new();
    let mut k: usize = 0;
    proof {
        assert(lsv.take(0) =~= Seq::<Seq<u8>>::empty());
        assert(idx@.map_values(|e: PackageEntry| e@) =~= parse_lines(lsv.take(0)));
    }
    while k < lines.len()
        invariant
            k <= lines@.len(),
            lsv == lines@.map_values(|l: Vec<u8>| l@),
            idx@.map_values(|e: PackageEntry| e@) == parse_lines(lsv.take(k as int)),
        decreases lines@.len() - k,
    {
        let r = parse_line_vec(&lines[k]);
        proof {
            assert(lsv.take(k + 1) =~= lsv.take(k as int) + seq![lsv[k as int]]);
            lemma_parse_lines_append(lsv.take(k as int), seq![lsv[k as int]]);
            assert(seq![lsv[k as int]].drop_first() =~= Seq::<Seq<u8>>::empty());
            assert(parse_lines(Seq::<Seq<u8>>::empty()) == Seq::<(Seq<u8>, Seq<u8>)>::empty());
            assert(lines@[k as int]@ == lsv[k as int]);
        }
        match r {
            Some(e) => {
                proof {
                    assert((idx@.push(e)).map_values(|x: PackageEntry| x@) =~= idx@.map_values(
                        |x: PackageEntry| x@,
                    ).push(e@));
                    assert(parse_lines(seq![lsv[k as int]]) =~= seq![e@]);
                    assert(parse_lines(lsv.take(k as int)) + seq![e@] =~= parse_lines(
                        lsv.take(k as int),
                    ).push(e@));
                }
                idx.push(e);
            },
            None => {
                proof {
                    assert(parse_lines(seq![lsv[k as int]]) =~= Seq::<(Seq<u8>, Seq<u8>)>::empty());
                    assert(parse_lines(lsv.take(k as int)) + Seq::<(Seq<u8>, Seq<u8>)>::empty()
                        =~= parse_lines(lsv.take(k as int)));
                }
            },
        }
        k += 1;
    }
    proof {
        assert(lsv.take(lines@.len() as int) =~= lsv);
    }
    idx
}

/// A line is blank when it holds only whitespace; blank lines of the server
/// list are ignored.
pub open spec fn is_blank(l: Seq<u8>) -> bool {
    forall|i: int| 0 <= i < l.len() ==> is_space(l[i])
}

/// The non-blank lines of a sequence of lines, in order.
pub open spec fn nonblank_lines(ls: Seq<Seq<u8>>) -> Seq<Seq<u8>>
    decreases ls.len(),
{
    if ls.len() == 0 {
        Seq::empty()
    } else if is_blank(ls[0]) {
        nonblank_lines(ls.drop_first())
    } else {
        seq![ls[0]] + nonblank_lines(ls.drop_first())
    }
}

pub proof fn lemma_nonblank_lines_append(a: Seq<Seq<u8>>, b: Seq<Seq<u8>>)
    ensures
        nonblank_lines(a + b) == nonblank_lines(a) + nonblank_lines(b),
    decreases a.len(),
{
    if a.len() == 0 {
        assert(a + b =~= b);
        assert(nonblank_lines(a) + nonblank_lines(b) =~= nonblank_lines(b));
    } else {
        assert((a + b).drop_first() =~= a.drop_first() + b);
        lemma_nonblank_lines_append(a.drop_first(), b);
        if !is_blank(a[0]) {
            assert(nonblank_lines(a + b) =~= nonblank_lines(a) + nonblank_lines(b));
        }
    }
}

/// The trusted servers named by the server-list text: its non-blank lines, in
/// order.
pub open spec fn server_lines(s: Seq<u8>) -> Seq<Seq<u8>> {
    nonblank_lines(split_lines(s))
}

/// The trusted servers held by the server-list text.
pub fn parse_server_list(text: &Vec<u8>) -> (servers: Vec<Vec<u8>>)
    ensures
        servers@.map_values(|l: Vec<u8>| l@) == server_lines(text@),
{
    let lines = split_lines_vec(text);
    let ghost lsv = lines@.map_values(|l: Vec<u8>| l@);
    let mut servers: Vec<Vec<u8>> = Vec::new();
    let mut k: usize = 0;
    proof {
        assert(lsv.take(0) =~= Seq::<Seq<u8>>::empty());
        assert(servers@.map_values(|l: Vec<u8>| l@) =~= nonblank_lines(lsv.take(0)));
    }
    while k < lines.len()
        invariant
            k <= lines@.len(),
            lsv == lines@.map_values(|l: Vec<u8>| l@),
            servers@.map_values(|l: Vec<u8>| l@) == nonblank_lines(lsv.take(k as int)),
        decreases lines@.len() - k,
    {
        let a = scan_spaces(&lines[k], 0);
        proof {
            assert(lines@[k as int]@ == lsv[k as int]);
            let l = lsv[k as int];
            assert(l.skip(0) =~= l);
            lemma_skip_spaces(l);
            assert(lsv.take(k + 1) =~= lsv.take(k as int) + seq![l]);
            lemma_nonblank_lines_append(lsv.take(k as int), seq![l]);
            assert(seq![l].drop_first() =~= Seq::<Seq<u8>>::empty());
            assert(nonblank_lines(Seq::<Seq<u8>>::empty()) == Seq::<Seq<u8>>::empty());
        }
        if a < lines[k].len() {
            let line = subvec(&lines[k], 0, lines[k].len());
            proof {
                let l = lsv[k as int];
                assert(line@ =~= l);
                assert(!is_blank(l));
                assert(nonblank_lines(seq![l]) =~= seq![l]);
                assert((servers@.push(line)).map_values(|x: Vec<u8>| x@) =~= servers@.map_values(
                    |x: Vec<u8>| x@,
                ).push(line@));
                assert(nonblank_lines(lsv.take(k as int)) + seq![l] =~= nonblank_lines(
                    lsv.take(k as int),
                ).push(l));
            }
            servers.push(line);
        } else {
            proof {
                let l = lsv[k as int];
                assert(is_blank(l));
                assert(nonblank_lines(seq![l]) =~= Seq::<Seq<u8>>::empty());
                assert(nonblank_lines(lsv.take(k as int)) + Seq::<Seq<u8>>::empty()
                    =~= nonblank_lines(lsv.take(k as int)));
            }
        }
        k += 1;
    }
    proof {
        assert(lsv.take(lines@.len() as int) =~= lsv);
    }
    servers
}

} // verus!
