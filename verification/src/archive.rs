//! Archive decoding: compression sniffing for database archives.
//!
//! A database archive may arrive zstd-compressed, gzip-compressed, or plain,
//! regardless of what its name or transport metadata claim; the scheme is
//! decided by the leading magic bytes alone.

use vstd::prelude::*;
use vstd::slice::slice_to_vec;

verus! {

/// Compression scheme of an archive, decided from its magic byte prefix.
#[derive(Clone, Copy, Debug, PartialEq, Eq, Structural)]
pub enum Compression {
    Zstd,
    Gzip,
    Plain,
}

/// The scheme selected for a byte sequence: the zstd frame magic
/// `28 B5 2F FD` wins first, then the gzip magic `1F 8B` (two bytes),
/// anything else is treated as already uncompressed.
pub open spec fn spec_sniff(data: Seq<u8>) -> Compression {
    if data.len() >= 4 && data[0] == 0x28u8 && data[1] == 0xb5u8 && data[2] == 0x2fu8
        && data[3] == 0xfdu8 {
        Compression::Zstd
    } else if data.len() >= 2 && data[0] == 0x1fu8 && data[1] == 0x8bu8 {
        Compression::Gzip
    } else {
        Compression::Plain
    }
}

/// Select the decompression strategy for an archive by its magic bytes.
pub fn sniff_compression(data: &Vec<u8>) -> (c: Compression)
    ensures
        c == spec_sniff(data@),
{
    if data.len() >= 4 && data[0] == 0x28u8 && data[1] == 0xb5u8 && data[2] == 0x2fu8
        && data[3] == 0xfdu8 {
        Compression::Zstd
    } else if data.len() >= 2 && data[0] == 0x1fu8 && data[1] == 0x8bu8 {
        Compression::Gzip
    } else {
        Compression::Plain
    }
}

/// What decompressing a byte sequence as one zstd frame sequence yields,
/// or `None` where the zstd format rejects it.
pub uninterp spec fn zstd_decoded(data: Seq<u8>) -> Option<Seq<u8>>;

/// Relies on zstd::stream::decode_all: decompressing in-memory bytes in the
/// zstd frame format is a function of the bytes alone, and fails exactly on
/// bytes that format rejects.
#[verifier::external_body]
fn zstd_decompress(data: &Vec<u8>) -> (r: Option<Vec<u8>>)
    ensures
        r is Some <==> zstd_decoded(data@) is Some,
        r matches Some(out) ==> Some(out@) == zstd_decoded(data@),
{
    zstd::stream::decode_all(data.as_slice()).ok()
}

/// What decompressing a byte sequence as a gzip stream yields, or `None`
/// where the gzip format rejects it.
pub uninterp spec fn gzip_decoded(data: Seq<u8>) -> Option<Seq<u8>>;

/// Relies on flate2::read::GzDecoder: decompressing an in-memory gzip
/// stream is a function of the bytes alone, and fails exactly on bytes that
/// format rejects.
#[verifier::external_body]
fn gzip_decompress(data: &Vec<u8>) -> (r: Option<Vec<u8>>)
    ensures
        r is Some <==> gzip_decoded(data@) is Some,
        r matches Some(out) ==> Some(out@) == gzip_decoded(data@),
{
    let mut out = Vec::new();
    let mut dec = flate2::read::GzDecoder::new(data.as_slice());
    match std::io::Read::read_to_end(&mut dec, &mut out) {
        Ok(_) => Some(out),
        Err(_) => None,
    }
}

/// The decompressed form of an archive: decided by the sniffed scheme, with
/// unrecognized bytes passed through unchanged.
pub open spec fn spec_decompressed(data: Seq<u8>) -> Option<Seq<u8>> {
    match spec_sniff(data) {
        Compression::Zstd => zstd_decoded(data),
        Compression::Gzip => gzip_decoded(data),
        Compression::Plain => Some(data),
    }
}

/// Sniff an archive's compression scheme from its magic bytes and
/// decompress accordingly; `None` where the selected decoder rejects the
/// bytes.
pub fn decompress(data: &Vec<u8>) -> (r: Option<Vec<u8>>)
    ensures
        r is Some <==> spec_decompressed(data@) is Some,
        r matches Some(out) ==> Some(out@) == spec_decompressed(data@),
{
    match sniff_compression(data) {
        Compression::Zstd => zstd_decompress(data),
        Compression::Gzip => gzip_decompress(data),
        Compression::Plain => Some(slice_to_vec(data.as_slice())),
    }
}

/// One entry of a tar archive: its path, whether it is a regular file, and
/// its contents.
#[derive(Debug)]
pub struct TarEntry {
    pub path: String,
    pub is_file: bool,
    pub data: Vec<u8>,
}

impl DeepView for TarEntry {
    type V = (Seq<char>, bool, Seq<u8>);

    open spec fn deep_view(&self) -> (Seq<char>, bool, Seq<u8>) {
        (self.path@, self.is_file, self.data@)
    }
}

/// The entry list a byte sequence holds when read as a tar archive — path,
/// file-ness, contents per entry — or `None` where the archive is
/// unreadable.
pub uninterp spec fn tar_entry_list(data: Seq<u8>) -> Option<Seq<(Seq<char>, bool, Seq<u8>)>>;

/// Relies on tar::Archive over an in-memory reader: the entries of a byte
/// sequence, each one's path (decoded as text, lossily), regular-file flag
/// and contents, are a function of the bytes alone, and reading fails
/// exactly on archives the tar format rejects.
#[verifier::external_body]
pub(crate) fn tar_entries(data: &Vec<u8>) -> (r: Option<Vec<TarEntry>>)
    ensures
        r is Some <==> tar_entry_list(data@) is Some,
        r matches Some(es) ==> Some(es.deep_view()) == tar_entry_list(data@),
{
    let mut archive = tar::Archive::new(data.as_slice());
    let mut out = Vec::new();
    for ent in archive.entries().ok()? {
        let mut e = ent.ok()?;
        let path = String::from_utf8_lossy(&e.path_bytes()).into_owned();
        let is_file = e.header().entry_type().is_file();
        let mut content = Vec::new();
        std::io::Read::read_to_end(&mut e, &mut content).ok()?;
        out.push(TarEntry { path, is_file, data: content });
    }
    Some(out)
}

/// For each of the three recognized magic prefixes the decoder selects the
/// matching strategy: the zstd frame magic selects the zstd decoder, the
/// gzip magic the gzip decoder, and any other prefix passes the bytes
/// through unchanged.
pub proof fn lemma_sniff_selects(data: Seq<u8>)
    ensures
        data.len() >= 4 && data[0] == 0x28u8 && data[1] == 0xb5u8 && data[2] == 0x2fu8 && data[3]
            == 0xfdu8 ==> spec_sniff(data) == Compression::Zstd && spec_decompressed(data)
            == zstd_decoded(data),
        data.len() >= 2 && !(data.len() >= 4 && data[0] == 0x28u8 && data[1] == 0xb5u8 && data[2]
            == 0x2fu8 && data[3] == 0xfdu8) && data[0] == 0x1fu8 && data[1] == 0x8bu8 ==> spec_sniff(
            data,
        ) == Compression::Gzip && spec_decompressed(data) == gzip_decoded(data),
        spec_sniff(data) == Compression::Plain ==> spec_decompressed(data) == Some(data),
{
}

} // verus!
