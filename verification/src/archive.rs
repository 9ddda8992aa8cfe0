use vstd::prelude::*;
use crate::errors::EntryError;

verus! {

/// One entry of an unpacked archive: its path inside the archive, as the raw
/// bytes the archive lists, and its contents.
#[derive(Debug, PartialEq, Eq)]
pub struct ArchiveEntry {
    pub path: Vec<u8>,
    pub data: Vec<u8>,
}

impl View for ArchiveEntry {
    type V = (Seq<u8>, Seq<u8>);

    open spec fn view(&self) -> (Seq<u8>, Seq<u8>) {
        (self.path@, self.data@)
    }
}

/// The decompression of a gzip stream: a function of the compressed bytes
/// alone.
pub uninterp spec fn gunzip_of(bytes: Seq<u8>) -> Seq<u8>;

/// Whether the bytes decode as a gzip stream: decoding from memory can fail
/// only on malformed bytes, so success too is a function of the bytes alone.
pub uninterp spec fn gunzip_ok_of(bytes: Seq<u8>) -> bool;

/// The entries listed by a tar archive — path bytes and contents, in archive
/// order: a function of the archive bytes alone.
pub uninterp spec fn tar_entries_of(bytes: Seq<u8>) -> Seq<(Seq<u8>, Seq<u8>)>;

/// Whether the bytes read as a well-formed tar archive: again a function of
/// the archive bytes alone.
pub uninterp spec fn tar_ok_of(bytes: Seq<u8>) -> bool;

/// Relies on flate2's `read::GzDecoder` driven by `Read::read_to_end`:
/// reading from a byte slice cannot fail for I/O reasons, so both the
/// decompressed bytes and whether decoding succeeds are deterministic in the
/// input bytes.
#[verifier::external_body]
fn gunzip(bytes: &Vec<u8>) -> (r: Result<Vec<u8>, ()>)
    ensures
        (r is Ok) == gunzip_ok_of(bytes@),
        r matches Ok(out) ==> out@ == gunzip_of(bytes@),
{
    let mut decoder = flate2::read::GzDecoder::new(bytes.as_slice());
    let mut out: Vec<u8> = Vec::new();
    match std::io::Read::read_to_end(&mut decoder, &mut out) {
        Ok(_) => Ok(out),
        Err(_) => Err(()),
    }
}

/// Relies on tar's `Archive::entries`, `Entry::path_bytes` and the entry's
/// `Read`: over an in-memory slice, an archive's entry paths and contents —
/// and whether it reads at all — are deterministic in the archive bytes.
#[verifier::external_body]
fn untar(bytes: &Vec<u8>) -> (r: Result<Vec<ArchiveEntry>, ()>)
    ensures
        (r is Ok) == tar_ok_of(bytes@),
        r matches Ok(es) ==> es@.map_values(|e: ArchiveEntry| e@) == tar_entries_of(bytes@),
{
    let mut archive = tar::Archive::new(bytes.as_slice());
    let mut out: Vec<ArchiveEntry> = Vec::new();
    for entry in archive.entries().map_err(|_| ())? {
        let mut entry = entry.map_err(|_| ())?;
        let path = entry.path_bytes().into_owned();
        let mut data: Vec<u8> = Vec::new();
        std::io::Read::read_to_end(&mut entry, &mut data).map_err(|_| ())?;
        out.push(ArchiveEntry { path, data });
    }
    Ok(out)
}

/// Unpacks a fetched package archive: decompresses the gzip stream and reads
/// the entries of the contained tar. It succeeds exactly on a well-formed
/// archive; either step failing is the one `CorruptArchive` error, attributed
/// to this package alone.
pub fn extract_archive(bytes: &Vec<u8>) -> (r: Result<Vec<ArchiveEntry>, EntryError>)
    ensures
        (r is Ok) == (gunzip_ok_of(bytes@) && tar_ok_of(gunzip_of(bytes@))),
        r matches Ok(es) ==> es@.map_values(|e: ArchiveEntry| e@) == tar_entries_of(
            gunzip_of(bytes@),
        ),
        r matches Err(e) ==> e == EntryError::CorruptArchive,
{
    match gunzip(bytes) {
        Ok(tar_bytes) => match untar(&tar_bytes) {
            Ok(es) => Ok(es),
            Err(_) => Err(EntryError::CorruptArchive),
        },
        Err(_) => Err(EntryError::CorruptArchive),
    }
}

} // verus!
