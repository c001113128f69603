//! The archive format, as far as the store needs it.
//!
//! Archives are read and written by the `zip` crate. Nothing in this file is
//! proved: each function here makes one call into that crate, and its
//! contract says what the store relies on. What an archive holds is a function
//! of its bytes, so the reading side is stated over the bytes that an archive
//! was opened on. The writing side draws a random salt for every slot it
//! seals, so nothing is stated of the bytes it makes but that they are those
//! of the draft that was finished. Of a draft it is stated what it was handed,
//! entry by entry, and what its comment is. What was made is opened and
//! compared before it is handed out (see `codec::merge`).

use std::io::Cursor;
use std::io::Read;
use std::io::Write;
use vstd::prelude::*;
use vstd::utf8::encode_utf8;
use zip::AesMode;
use zip::CompressionMethod;
use zip::result::ZipError;
use zip::write::SimpleFileOptions;
use zip::ZipArchive;
use zip::ZipWriter;

verus! {

/// `std::io::Cursor`, the in-memory reader that archives are opened on.
#[verifier::external_type_specification]
#[verifier::external_body]
#[verifier::reject_recursive_types(T)]
pub struct ExCursor<T>(Cursor<T>);

/// `zip::ZipArchive`, an archive opened for reading.
#[verifier::external_type_specification]
#[verifier::external_body]
#[verifier::reject_recursive_types(R)]
pub struct ExZipArchive<R>(ZipArchive<R>);

/// `zip::result::ZipError`, the failure of any call into the crate.
#[verifier::external_type_specification]
#[verifier::external_body]
pub struct ExZipError(ZipError);

/// An archive under construction: a `zip::ZipWriter` over a buffer in memory.
/// The writer's own type takes a parameter that is bound by `std::io::Write`
/// and `std::io::Seek`, which Verus does not know, so the writer is kept
/// behind this struct. Of what it holds, it is stated what it was handed for
/// each entry, and its comment.
#[verifier::external_body]
pub struct Draft {
    inner: ZipWriter<Cursor<Vec<u8>>>,
}

/// The kinds of `ZipError`.
#[derive(Clone, Copy, Debug, PartialEq, Eq, Structural)]
pub enum Fault {
    /// `ZipError::Io`: reading or writing failed, or a slot failed its check
    /// while it was read.
    Io,
    /// `ZipError::InvalidArchive`.
    Invalid,
    /// `ZipError::UnsupportedArchive`.
    Unsupported,
    /// `ZipError::FileNotFound`.
    Missing,
    /// `ZipError::InvalidPassword`.
    Password,
    /// A kind that a later version of the crate may add.
    Other,
}

/// What a draft was handed for one of its entries.
pub enum Handed {
    /// Contents to seal: the name of the entry, the contents, the key, the
    /// length of the AES key in bits, and whether the entry is stored without
    /// compression.
    Fresh { name: Seq<char>, contents: Seq<u8>, key: Seq<char>, bits: u16, stored: bool },
    /// An entry of an open archive to copy as it is stored: its name, the
    /// bytes that the archive was opened on, and its position there.
    Copied { name: Seq<char>, from: Seq<u8>, at: int },
}

/// What a draft was handed, entry by entry, in the order in which its
/// entries were put.
pub uninterp spec fn draft_handed(w: Draft) -> Seq<Handed>;

/// The comment that a draft holds.
pub uninterp spec fn draft_comment(w: Draft) -> Seq<u8>;

/// The bytes that finishing a draft gives.
pub uninterp spec fn draft_image(w: Draft) -> Seq<u8>;

/// The bytes that an archive was opened on.
pub uninterp spec fn archive_source(a: ZipArchive<Cursor<Vec<u8>>>) -> Seq<u8>;

/// Whether `ZipArchive::new` accepts the bytes as an archive.
pub uninterp spec fn zip_opens(bytes: Seq<u8>) -> bool;

/// The comment of the archive that the bytes hold.
pub uninterp spec fn zip_comment(bytes: Seq<u8>) -> Seq<u8>;

/// The names of the entries of the archive that the bytes hold, in the order
/// of its directory.
pub uninterp spec fn zip_names(bytes: Seq<u8>) -> Seq<Seq<char>>;

/// The stored bytes of an entry, still sealed, as `by_index_raw` hands them
/// out; `None` where they cannot be read.
pub uninterp spec fn zip_sealed(bytes: Seq<u8>, at: int) -> Option<Seq<u8>>;

/// The length of an entry as it is stored, which its directory records;
/// `None` where the entry cannot be found in the bytes.
pub uninterp spec fn zip_size(bytes: Seq<u8>, at: int) -> Option<u64>;

/// Whether the directory marks an entry as encrypted; `None` where the entry
/// cannot be found in the bytes.
pub uninterp spec fn zip_encrypted(bytes: Seq<u8>, at: int) -> Option<bool>;

/// The least length of a sealed entry: sixteen bytes of salt at most, two to
/// check the key and ten to authenticate the contents.
pub open spec fn least_sealed() -> u64 {
    28
}

/// Whether the entry at a position can be unsealed without harm: it is not
/// marked as encrypted, or it is recorded with a length that a sealed entry
/// can have.
pub open spec fn sound_at(bytes: Seq<u8>, at: int) -> bool {
    match zip_encrypted(bytes, at) {
        Some(marked) => !marked || (zip_size(bytes, at) is Some && zip_size(bytes, at)->0
            >= least_sealed()),
        None => false,
    }
}

/// Whether the entry of a name can be unsealed without harm.
pub open spec fn may_unseal(bytes: Seq<u8>, name: Seq<char>) -> bool {
    exists|at: int|
        0 <= at < zip_names(bytes).len() && #[trigger] zip_names(bytes)[at] == name && sound_at(
            bytes,
            at,
        )
}

/// The length in bits of the AES key that an entry is sealed with, as its
/// directory records it; `None` where the entry is not sealed with AES or
/// cannot be found in the bytes.
pub uninterp spec fn zip_strength(bytes: Seq<u8>, at: int) -> Option<u16>;

/// Whether the directory records an entry as stored without compression.
pub uninterp spec fn zip_stored(bytes: Seq<u8>, at: int) -> bool;

/// What `by_name_decrypt` reads from the entry of a name under a key, or the
/// kind of its failure.
pub uninterp spec fn zip_plain(bytes: Seq<u8>, name: Seq<char>, key: Seq<char>) -> Result<
    Seq<u8>,
    Fault,
>;

/// The kind of an error: which variant of `ZipError` it is.
pub uninterp spec fn zip_fault(e: ZipError) -> Fault;

/// `ZipArchive::new` over a cursor on the bytes. It succeeds on the bytes that
/// `zip_opens` names, and the archive then reads from exactly these bytes. The
/// crate keeps the entries in a map keyed by name, so no name occurs twice.
#[verifier::external_body]
pub(crate) fn open_archive(bytes: Vec<u8>) -> (r: Result<ZipArchive<Cursor<Vec<u8>>>, ZipError>)
    ensures
        r is Ok <==> zip_opens(bytes@),
        r matches Ok(a) ==> archive_source(a) == bytes@ && zip_names(bytes@).no_duplicates(),
{
    ZipArchive::new(Cursor::new(bytes))
}

/// `ZipArchive::len`: the number of entries.
#[verifier::external_body]
pub(crate) fn archive_len(a: &ZipArchive<Cursor<Vec<u8>>>) -> (n: usize)
    ensures
        n == zip_names(archive_source(*a)).len(),
{
    a.len()
}

/// `ZipArchive::comment`: the archive's comment.
#[verifier::external_body]
pub(crate) fn archive_comment<'a>(a: &'a ZipArchive<Cursor<Vec<u8>>>) -> (c: &'a [u8])
    ensures
        c@ == zip_comment(archive_source(*a)),
{
    a.comment()
}

/// `ZipArchive::name_for_index`: the name of the entry at a position, which
/// is there for every position below the length.
#[verifier::external_body]
pub(crate) fn entry_name<'a>(
    a: &'a ZipArchive<Cursor<Vec<u8>>>,
    at: usize,
) -> (name: Option<&'a str>)
    ensures
        name is Some <==> at < zip_names(archive_source(*a)).len(),
        name matches Some(n) ==> n@ == zip_names(archive_source(*a))[at as int],
{
    a.name_for_index(at)
}

/// `ZipArchive::by_index_raw`, read to its end: the stored bytes of the entry
/// at a position, without unsealing. The archive's bytes stay as they are.
#[verifier::external_body]
pub(crate) fn entry_sealed(
    a: &mut ZipArchive<Cursor<Vec<u8>>>,
    at: usize,
) -> (r: Result<Vec<u8>, ZipError>)
    ensures
        archive_source(*final(a)) == archive_source(*old(a)),
        r is Ok <==> zip_sealed(archive_source(*old(a)), at as int) is Some,
        r matches Ok(v) ==> zip_sealed(archive_source(*old(a)), at as int) == Some(v@),
{
    let mut file = a.by_index_raw(at)?;
    let mut sealed = Vec::new();
    file.read_to_end(&mut sealed)?;
    Ok(sealed)
}

/// `ZipArchive::by_index_raw`, then `ZipFile::compressed_size`: the length
/// that the directory records for the entry at a position. The archive's
/// bytes stay as they are.
#[verifier::external_body]
pub(crate) fn entry_size(
    a: &mut ZipArchive<Cursor<Vec<u8>>>,
    at: usize,
) -> (r: Result<u64, ZipError>)
    ensures
        archive_source(*final(a)) == archive_source(*old(a)),
        r is Ok <==> zip_size(archive_source(*old(a)), at as int) is Some,
        r matches Ok(n) ==> zip_size(archive_source(*old(a)), at as int) == Some(n),
{
    Ok(a.by_index_raw(at)?.compressed_size())
}

/// `ZipArchive::by_index_raw`, then `ZipFile::encrypted`: whether the entry at
/// a position is marked as encrypted. The archive's bytes stay as they are.
#[verifier::external_body]
pub(crate) fn entry_encrypted(
    a: &mut ZipArchive<Cursor<Vec<u8>>>,
    at: usize,
) -> (r: Result<bool, ZipError>)
    ensures
        archive_source(*final(a)) == archive_source(*old(a)),
        r is Ok <==> zip_encrypted(archive_source(*old(a)), at as int) is Some,
        r matches Ok(marked) ==> zip_encrypted(archive_source(*old(a)), at as int) == Some(marked),
{
    Ok(a.by_index_raw(at)?.encrypted())
}

/// `ZipArchive::get_aes_verification_key_and_salt`, of which the mode is
/// kept: the length of the key, by the variant of `AesMode`. The archive's
/// bytes stay as they are. Entries that are too short to be sealed are left
/// out, for the reason given at `entry_plain`.
#[verifier::external_body]
pub(crate) fn entry_strength(
    a: &mut ZipArchive<Cursor<Vec<u8>>>,
    at: usize,
) -> (r: Result<Option<u16>, ZipError>)
    requires
        zip_size(archive_source(*old(a)), at as int) is Some,
        zip_size(archive_source(*old(a)), at as int)->0 >= least_sealed(),
    ensures
        archive_source(*final(a)) == archive_source(*old(a)),
        r matches Ok(Some(bits)) ==> zip_strength(archive_source(*old(a)), at as int) == Some(bits),
        !(r matches Ok(Some(_))) ==> zip_strength(archive_source(*old(a)), at as int) is None,
{
    Ok(a.get_aes_verification_key_and_salt(at)?.map(|info| match info.aes_mode {
        AesMode::Aes128 => 128,
        AesMode::Aes192 => 192,
        AesMode::Aes256 => 256,
    }))
}

/// `ZipArchive::by_index_raw`, then `ZipFile::compression`: whether the entry
/// at a position is recorded as stored without compression. The archive's
/// bytes stay as they are.
#[verifier::external_body]
pub(crate) fn entry_stored(
    a: &mut ZipArchive<Cursor<Vec<u8>>>,
    at: usize,
) -> (r: Result<bool, ZipError>)
    ensures
        archive_source(*final(a)) == archive_source(*old(a)),
        r matches Ok(stored) ==> stored == zip_stored(archive_source(*old(a)), at as int),
        r is Err ==> !zip_stored(archive_source(*old(a)), at as int),
{
    Ok(matches!(a.by_index_raw(at)?.compression(), CompressionMethod::Stored))
}

/// `ZipArchive::by_name_decrypt`, read to its end: the contents of the entry
/// of a name, unsealed under the key, or the error. The archive's bytes stay
/// as they are.
///
/// The crate takes the length of salt, check value and authentication code
/// off the recorded length of an entry that is marked as encrypted and
/// sealed with AES, before it reads anything, and that subtraction overflows
/// on a shorter entry. Entries that are marked and shorter are left out.
#[verifier::external_body]
pub(crate) fn entry_plain(
    a: &mut ZipArchive<Cursor<Vec<u8>>>,
    name: &str,
    key: &str,
) -> (r: Result<Vec<u8>, ZipError>)
    requires
        may_unseal(archive_source(*old(a)), name@),
    ensures
        archive_source(*final(a)) == archive_source(*old(a)),
        r matches Ok(v) ==> (zip_plain(archive_source(*old(a)), name@, key@) matches Ok(p) && p
            == v@),
        r matches Err(e) ==> (zip_plain(archive_source(*old(a)), name@, key@) matches Err(k) && k
            == zip_fault(e)),
{
    let mut file = a.by_name_decrypt(name, key.as_bytes())?;
    let mut plain = Vec::new();
    file.read_to_end(&mut plain)?;
    Ok(plain)
}

/// Tells the variants of `ZipError` apart.
#[verifier::external_body]
pub(crate) fn fault_of(e: &ZipError) -> (kind: Fault)
    ensures
        kind == zip_fault(*e),
{
    match e {
        ZipError::Io(_) => Fault::Io,
        ZipError::InvalidArchive(_) => Fault::Invalid,
        ZipError::UnsupportedArchive(_) => Fault::Unsupported,
        ZipError::FileNotFound => Fault::Missing,
        ZipError::InvalidPassword => Fault::Password,
        _ => Fault::Other,
    }
}

/// `ZipWriter::new` over an empty buffer: a writer without files and with
/// an empty comment.
#[verifier::external_body]
pub(crate) fn new_draft() -> (w: Draft)
    ensures
        draft_handed(w).len() == 0,
        draft_comment(w).len() == 0,
{
    Draft { inner: ZipWriter::new(Cursor::new(Vec::new())) }
}

/// `ZipWriter::raw_copy_file` on the entry that `by_index_raw` finds at a
/// position of an open archive: the entry goes into the draft as it is
/// stored, without being unsealed. The archive's bytes stay as they are.
/// Where the call succeeds, the position was one of the archive and the
/// draft has one entry more, the last, which is that copy; its comment is as
/// it was. Nothing is stated of a draft on which the call failed.
#[verifier::external_body]
pub(crate) fn copy_verbatim(
    w: &mut Draft,
    a: &mut ZipArchive<Cursor<Vec<u8>>>,
    at: usize,
) -> (r: Result<(), ZipError>)
    ensures
        archive_source(*final(a)) == archive_source(*old(a)),
        r is Ok ==> at < zip_names(archive_source(*old(a))).len(),
        r is Ok ==> draft_handed(*final(w)) == draft_handed(*old(w)).push(
            (Handed::Copied {
                name: zip_names(archive_source(*old(a)))[at as int],
                from: archive_source(*old(a)),
                at: at as int,
            }),
        ),
        r is Ok ==> draft_comment(*final(w)) == draft_comment(*old(w)),
{
    let file = a.by_index_raw(at)?;
    w.inner.raw_copy_file(file)
}

/// `ZipWriter::start_file`, then the contents. The options are made of what
/// is asked for: the length of the AES key, by the variant of `AesMode`, and
/// storing without compression, which is the one method that the crate has as
/// it is built for this library. Where both calls succeed, the draft has one
/// entry more, the last, which is what was handed in; its comment is as it
/// was. Nothing is stated of a draft on which a call failed.
#[verifier::external_body]
pub(crate) fn write_plain(
    w: &mut Draft,
    name: &str,
    data: &[u8],
    key: &str,
    bits: u16,
    stored: bool,
) -> (r: Result<(), ZipError>)
    requires
        bits == 128 || bits == 192 || bits == 256,
        stored,
    ensures
        r is Ok ==> draft_handed(*final(w)) == draft_handed(*old(w)).push(
            (Handed::Fresh { name: name@, contents: data@, key: key@, bits, stored }),
        ),
        r is Ok ==> draft_comment(*final(w)) == draft_comment(*old(w)),
{
    let mode = match bits {
        128 => AesMode::Aes128,
        192 => AesMode::Aes192,
        _ => AesMode::Aes256,
    };
    let method = if stored { CompressionMethod::Stored } else { CompressionMethod::default() };
    let options = SimpleFileOptions::default().compression_method(method);
    let options = options.with_aes_encryption(mode, key);
    w.inner.start_file(name, options)?;
    w.inner.write_all(data)?;
    Ok(())
}

/// `ZipWriter::set_comment`: the comment of the draft becomes the bytes of
/// the text, and its entries are as they were.
#[verifier::external_body]
pub(crate) fn set_comment(w: &mut Draft, text: &str)
    ensures
        draft_comment(*final(w)) == encode_utf8(text@),
        draft_handed(*final(w)) == draft_handed(*old(w)),
{
    w.inner.set_comment(text)
}

/// `ZipWriter::finish`: the bytes of the finished archive. They are what the
/// draft makes them: finishing draws nothing at random. Whether they read
/// back as the draft was filled is not stated.
#[verifier::external_body]
pub(crate) fn finish(w: Draft) -> (r: Result<Vec<u8>, ZipError>)
    ensures
        r matches Ok(bytes) ==> bytes@ == draft_image(w),
{
    w.inner.finish().map(Cursor::into_inner)
}

} // verus!
