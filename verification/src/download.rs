use vstd::prelude::*;
use crate::errors::EntryError;
use crate::text::{push_all, push_slice, subvec};

verus! {

/// A base URL is joined to a path with exactly one slash between them, so
/// trailing slashes are trimmed from the base first.
pub open spec fn trim_trailing_slashes(s: Seq<u8>) -> Seq<u8>
    decreases s.len(),
{
    if s.len() == 0 {
        s
    } else if s.last() == 47 {
        trim_trailing_slashes(s.drop_last())
    } else {
        s
    }
}

/// `<base>/<path>`: the base without its trailing slashes, one slash, and the
/// remote path.
pub open spec fn join_url_spec(base: Seq<u8>, path: Seq<u8>) -> Seq<u8> {
    trim_trailing_slashes(base) + seq![47u8] + path
}

pub fn join_url(base: &Vec<u8>, path: &Vec<u8>) -> (r: Vec<u8>)
    ensures
        r@ == join_url_spec(base@, path@),
{
    let mut cut: usize = base.len();
    proof {
        assert(base@.take(base@.len() as int) =~= base@);
    }
    while cut > 0 && base[cut - 1] == 47
        invariant
            cut <= base@.len(),
            trim_trailing_slashes(base@.take(cut as int)) == trim_trailing_slashes(base@),
        decreases cut,
    {
        proof {
            let t = base@.take(cut as int);
            assert(t.last() == base@[cut - 1]);
            assert(t.drop_last() =~= base@.take(cut - 1));
        }
        cut -= 1;
    }
    let mut r = subvec(base, 0, cut);
    proof {
        let t = base@.take(cut as int);
        assert(r@ =~= t);
        if cut > 0 {
            assert(t.last() == base@[cut - 1]);
        }
        assert(trim_trailing_slashes(t) == t);
    }
    r.push(47);
    push_all(&mut r, path);
    proof {
        assert(r@ =~= join_url_spec(base@, path@));
    }
    r
}

/// The bytes of `.tar.gz`, the suffix of every package archive name.
pub open spec fn tar_gz_suffix() -> Seq<u8> {
    seq![46u8, 116, 97, 114, 46, 103, 122]
}

/// The remote (and local) file name of a package's archive: `<name>.tar.gz`.
pub open spec fn archive_file_name_spec(name: Seq<u8>) -> Seq<u8> {
    name + tar_gz_suffix()
}

pub fn archive_file_name(name: &Vec<u8>) -> (r: Vec<u8>)
    ensures
        r@ == archive_file_name_spec(name@),
{
    let mut r = subvec(name, 0, name.len());
    let suffix: [u8; 7] = [46, 116, 97, 114, 46, 103, 122];
    push_slice(&mut r, &suffix);
    proof {
        assert(r@ =~= archive_file_name_spec(name@));
    }
    r
}

/// The URL a queued package is fetched from: its source URL joined with
/// `<name>.tar.gz`.
pub open spec fn package_archive_url(url: Seq<u8>, name: Seq<u8>) -> Seq<u8> {
    join_url_spec(url, archive_file_name_spec(name))
}

pub fn package_archive_url_vec(url: &Vec<u8>, name: &Vec<u8>) -> (r: Vec<u8>)
    ensures
        r@ == package_archive_url(url@, name@),
{
    let file = archive_file_name(name);
    join_url(url, &file)
}

/// A download needs the server-reported size for progress accounting: without
/// a content length the fetch is refused before any byte is streamed.
pub fn require_content_length(len: Option<u64>) -> (r: Result<u64, EntryError>)
    ensures
        (r is Ok) == (len is Some),
        r matches Ok(n) ==> len == Some(n),
        r matches Err(e) ==> e == EntryError::ContentLengthUnknown && len is None,
{
    match len {
        Some(n) => Ok(n),
        None => Err(EntryError::ContentLengthUnknown),
    }
}

} // verus!
