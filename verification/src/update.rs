use vstd::prelude::*;
use crate::download::{join_url, join_url_spec};
use crate::errors::UpdateError;
use crate::index::{parse_index, parse_lines, lemma_parse_lines_append};
use crate::text::{lemma_split_lines_append, push_all, split_lines, NL};

verus! {

/// The merged local index: each server's fetched listing appended in server
/// order as a line block — the listing's bytes followed by a line separator.
pub open spec fn merge_spec(listings: Seq<Seq<u8>>) -> Seq<u8>
    decreases listings.len(),
{
    if listings.len() == 0 {
        Seq::empty()
    } else {
        listings[0] + seq![NL] + merge_spec(listings.drop_first())
    }
}

pub proof fn lemma_merge_append(a: Seq<Seq<u8>>, b: Seq<Seq<u8>>)
    ensures
        merge_spec(a + b) == merge_spec(a) + merge_spec(b),
    decreases a.len(),
{
    if a.len() == 0 {
        assert(a + b =~= b);
        assert(merge_spec(a) + merge_spec(b) =~= merge_spec(b));
    } else {
        assert((a + b).drop_first() =~= a.drop_first() + b);
        lemma_merge_append(a.drop_first(), b);
        assert(merge_spec(a + b) =~= merge_spec(a) + merge_spec(b));
    }
}

/// The merged index text for the fetched listings.
pub fn merge_listings(listings: &Vec<Vec<u8>>) -> (r: Vec<u8>)
    ensures
        r@ == merge_spec(listings@.map_values(|l: Vec<u8>| l@)),
{
    let ghost lsv = listings@.map_values(|l: Vec<u8>| l@);
    let mut r: Vec<u8> = Vec::new();
    let mut k: usize = 0;
    proof {
        assert(lsv.take(0) =~= Seq::<Seq<u8>>::empty());
        assert(r@ =~= merge_spec(lsv.take(0)));
    }
    while k < listings.len()
        invariant
            k <= listings@.len(),
            lsv == listings@.map_values(|l: Vec<u8>| l@),
            r@ == merge_spec(lsv.take(k as int)),
        decreases listings@.len() - k,
    {
        push_all(&mut r, &listings[k]);
        r.push(NL);
        proof {
            let l = lsv[k as int];
            assert(listings@[k as int]@ == l);
            assert(lsv.take(k + 1) =~= lsv.take(k as int) + seq![l]);
            lemma_merge_append(lsv.take(k as int), seq![l]);
            assert(seq![l].drop_first() =~= Seq::<Seq<u8>>::empty());
            assert(merge_spec(Seq::<Seq<u8>>::empty()) == Seq::<u8>::empty());
            assert(merge_spec(seq![l]) =~= l + seq![NL]);
            assert(merge_spec(lsv.take(k as int)) + (l + seq![NL]) =~= (merge_spec(
                lsv.take(k as int),
            ) + l).push(NL));
        }
        k += 1;
    }
    proof {
        assert(lsv.take(listings@.len() as int) =~= lsv);
    }
    r
}

/// The entries of each listing, concatenated in server order.
pub open spec fn parse_concat(listings: Seq<Seq<u8>>) -> Seq<(Seq<u8>, Seq<u8>)>
    decreases listings.len(),
{
    if listings.len() == 0 {
        Seq::empty()
    } else {
        parse_index(listings[0]) + parse_concat(listings.drop_first())
    }
}

/// Merge round-trip: re-parsing the merged index yields exactly the entries
/// of each server's listing, in server order.
pub proof fn lemma_merge_round_trip(listings: Seq<Seq<u8>>)
    ensures
        parse_index(merge_spec(listings)) == parse_concat(listings),
    decreases listings.len(),
{
    if listings.len() == 0 {
        assert(split_lines(Seq::<u8>::empty()) == seq![Seq::<u8>::empty()]);
        assert(parse_lines(Seq::<Seq<u8>>::empty()) == Seq::<(Seq<u8>, Seq<u8>)>::empty());
        assert(seq![Seq::<u8>::empty()].drop_first() =~= Seq::<Seq<u8>>::empty());
        assert(crate::index::parse_line(Seq::<u8>::empty()) is None);
        assert(parse_index(merge_spec(listings)) =~= parse_concat(listings));
    } else {
        let l0 = listings[0];
        let rest = merge_spec(listings.drop_first());
        assert(merge_spec(listings) == l0 + seq![NL] + rest);
        lemma_split_lines_append(l0, rest);
        lemma_parse_lines_append(split_lines(l0), split_lines(rest));
        lemma_merge_round_trip(listings.drop_first());
        assert(parse_index(merge_spec(listings)) =~= parse_concat(listings));
    }
}

/// The bytes of `packagelist.txt`, the listing each trusted server serves.
pub open spec fn packagelist_name() -> Seq<u8> {
    seq![112u8, 97, 99, 107, 97, 103, 101, 108, 105, 115, 116, 46, 116, 120, 116]
}

pub fn packagelist_file_name() -> (r: Vec<u8>)
    ensures
        r@ == packagelist_name(),
{
    let mut r: Vec<u8> = Vec::new();
    crate::text::push_slice(
        &mut r,
        &[112u8, 97, 99, 107, 97, 103, 101, 108, 105, 115, 116, 46, 116, 120, 116],
    );
    proof {
        assert(r@ =~= packagelist_name());
    }
    r
}

/// The fetches an update performs: for each trusted server, in order, the URL
/// of its listing, `<server>/packagelist.txt`. With no server configured the
/// update fails instead of merging an empty index.
pub fn fetch_targets(servers: &Vec<Vec<u8>>) -> (r: Result<Vec<Vec<u8>>, UpdateError>)
    ensures
        (r is Ok) == (servers@.len() > 0),
        r matches Ok(urls) ==> {
            &&& urls@.len() == servers@.len()
            &&& forall|i: int|
                0 <= i < servers@.len() ==> urls@[i]@ == join_url_spec(
                    servers@[i]@,
                    packagelist_name(),
                )
        },
        r matches Err(e) ==> e == UpdateError::NoServersConfigured && servers@.len() == 0,
{
    if servers.len() == 0 {
        return Err(UpdateError::NoServersConfigured);
    }
    let file = packagelist_file_name();
    let mut urls: Vec<Vec<u8>> = Vec::new();
    let mut k: usize = 0;
    while k < servers.len()
        invariant
            k <= servers@.len(),
            urls@.len() == k,
            file@ == packagelist_name(),
            forall|i: int|
                0 <= i < k ==> urls@[i]@ == join_url_spec(servers@[i]@, packagelist_name()),
        decreases servers@.len() - k,
    {
        let url = join_url(&servers[k], &file);
        urls.push(url);
        k += 1;
    }
    Ok(urls)
}

} // verus!
