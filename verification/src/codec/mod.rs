//! Reading and writing one container.
//!
//! A container is an archive of sealed slots with an optional identity tag,
//! kept as the archive's comment. This module decides what a write does to a
//! container that may already exist, builds the container that takes its
//! place, and reads a slot back. It never touches a file: it is given the
//! bytes that are there and returns the bytes that are to be put there.

pub mod merge;
pub mod slot;

use crate::error::Error;
use crate::outside::archive::archive_comment;
use crate::outside::archive::archive_len;
use crate::outside::archive::archive_source;
use crate::outside::archive::entry_encrypted;
use crate::outside::archive::entry_name;
use crate::outside::archive::entry_plain;
use crate::outside::archive::entry_sealed;
use crate::outside::archive::entry_size;
use crate::outside::archive::Fault;
use crate::outside::archive::fault_of;
use crate::outside::archive::least_sealed;
use crate::outside::archive::sound_at;
use crate::outside::archive::open_archive;
use crate::outside::archive::zip_comment;
use crate::outside::archive::zip_names;
use crate::outside::archive::zip_opens;
use crate::outside::archive::zip_plain;
use crate::outside::archive::zip_sealed;
use crate::outside::archive::zip_stored;
use crate::outside::archive::zip_strength;
use crate::outside::archive::zip_size;
use crate::text::same_bytes;
use crate::text::same_text;
use crate::text::text_bytes;
use std::io::Cursor;
use vstd::prelude::*;
use vstd::slice::slice_to_vec;
use merge::build;
use merge::built;
use merge::merges;
use slot::Slot;
use slot::Updates;
use zip::ZipArchive;

verus! {

/// Whether the archive in the bytes has an entry for a slot.
pub open spec fn has_slot(bytes: Seq<u8>, s: Slot) -> bool {
    zip_names(bytes).contains(s.name_spec())
}

/// The stored bytes of a slot, still sealed.
pub open spec fn sealed_slot(bytes: Seq<u8>, s: Slot) -> Option<Seq<u8>> {
    zip_sealed(bytes, zip_names(bytes).index_of(s.name_spec()))
}

/// What a slot opens to under a key, or why it does not open.
pub open spec fn plain_slot(bytes: Seq<u8>, s: Slot, key: Seq<char>) -> Result<Seq<u8>, Fault> {
    zip_plain(bytes, s.name_spec(), key)
}

/// Whether a slot opens under a key to given contents.
pub open spec fn opens_to(bytes: Seq<u8>, s: Slot, key: Seq<char>, contents: Seq<u8>) -> bool {
    plain_slot(bytes, s, key) matches Ok(p) && p == contents
}

/// Whether a name is that of a slot.
pub open spec fn is_slot_name(name: Seq<char>) -> bool {
    ||| name == Slot::Message.name_spec()
    ||| name == Slot::Meta.name_spec()
    ||| name == Slot::Summary.name_spec()
    ||| name == Slot::Data.name_spec()
}

/// Whether every entry of the archive in the bytes is a slot.
pub open spec fn only_slots(bytes: Seq<u8>) -> bool {
    forall|i: int| 0 <= i < zip_names(bytes).len() ==> is_slot_name(#[trigger] zip_names(bytes)[i])
}

/// The bytes behind an optional slice.
pub open spec fn bytes_of(b: Option<&[u8]>) -> Option<Seq<u8>> {
    match b {
        Some(x) => Some(x@),
        None => None,
    }
}

/// An identity tag as it is stored: the bytes of the text.
pub open spec fn tag_of(tag: Option<&str>) -> Option<Seq<u8>> {
    match tag {
        Some(t) => Some(text_bytes(t@)),
        None => None,
    }
}

/// The error that stands for a slot that did not open: a wrong key and a
/// failed check of the contents are `DecryptFailed`, every other failure says
/// that the archive is damaged.
pub open spec fn read_failure(f: Fault) -> Error {
    match f {
        Fault::Password => Error::DecryptFailed,
        Fault::Io => Error::DecryptFailed,
        _ => Error::Corrupt,
    }
}

/// The error that stands for a slot that did not open.
pub fn failure_on_read(f: Fault) -> (e: Error)
    ensures
        e == read_failure(f),
{
    match f {
        Fault::Password => Error::DecryptFailed,
        Fault::Io => Error::DecryptFailed,
        _ => Error::Corrupt,
    }
}

/// Whether a slot is stored with a length that a sealed slot can have. A
/// shorter entry was not written by this store.
pub open spec fn whole_slot(bytes: Seq<u8>, s: Slot) -> bool {
    match zip_size(bytes, zip_names(bytes).index_of(s.name_spec())) {
        Some(n) => n >= least_sealed(),
        None => false,
    }
}

/// The length in bits of the key that slots are sealed with.
pub const KEY_BITS: u16 = 256;

/// Whether slots are stored without compression. They are: what is sealed
/// does not shrink, and a slot that is stored as it is can be carried over
/// byte by byte.
pub const STORED: bool = true;

/// Whether a slot is sealed as this store seals: with AES under a key of 256
/// bits, and stored without compression.
pub open spec fn sealed_strong(bytes: Seq<u8>, s: Slot) -> bool {
    let at = zip_names(bytes).index_of(s.name_spec());
    zip_strength(bytes, at) == Some(KEY_BITS) && zip_stored(bytes, at) == STORED
}

/// Whether a slot can be unsealed: it is not marked as encrypted, or it is
/// long enough to be a sealed one.
pub open spec fn sound_slot(bytes: Seq<u8>, s: Slot) -> bool {
    sound_at(bytes, zip_names(bytes).index_of(s.name_spec()))
}

/// What reading a slot gives: `NotFound` without a container or without the
/// slot, `Corrupt` where the bytes are no archive or the slot is marked as
/// encrypted and too short to be a sealed one, the contents where the slot
/// opens under the key, and else the error of the failure.
pub open spec fn read_spec(container: Option<Seq<u8>>, s: Slot, key: Seq<char>) -> Result<
    Seq<u8>,
    Error,
> {
    match container {
        None => Err(Error::NotFound),
        Some(b) => if !zip_opens(b) {
            Err(Error::Corrupt)
        } else if !has_slot(b, s) {
            Err(Error::NotFound)
        } else if !sound_slot(b, s) {
            Err(Error::Corrupt)
        } else {
            match plain_slot(b, s, key) {
                Ok(p) => Ok(p),
                Err(f) => Err(read_failure(f)),
            }
        },
    }
}

/// Where a name stands in a directory without duplicates, `index_of` finds it
/// there.
pub proof fn lemma_place(names: Seq<Seq<char>>, k: int, name: Seq<char>)
    requires
        names.no_duplicates(),
        0 <= k < names.len(),
        names[k] == name,
    ensures
        names.contains(name),
        names.index_of(name) == k,
{
    let i = names.index_of(name);
    assert(0 <= i < names.len() && names[i] == name);
}

/// What unsealing a slot of an archive gives.
pub open spec fn unseal_spec(bytes: Seq<u8>, s: Slot, key: Seq<char>) -> Result<Seq<u8>, Error> {
    if !sound_slot(bytes, s) {
        Err(Error::Corrupt)
    } else {
        match plain_slot(bytes, s, key) {
            Ok(p) => Ok(p),
            Err(f) => Err(read_failure(f)),
        }
    }
}

/// Unseals the slot at a position of an open archive. A slot that is marked
/// as encrypted and is shorter than a sealed slot can be is `Corrupt`.
pub(crate) fn unseal(
    a: &mut ZipArchive<Cursor<Vec<u8>>>,
    at: usize,
    s: Slot,
    key: &str,
) -> (r: Result<Vec<u8>, Error>)
    requires
        zip_names(archive_source(*old(a))).no_duplicates(),
        at < zip_names(archive_source(*old(a))).len(),
        zip_names(archive_source(*old(a)))[at as int] == s.name_spec(),
    ensures
        archive_source(*final(a)) == archive_source(*old(a)),
        agrees(r, unseal_spec(archive_source(*old(a)), s, key@)),
{
    proof {
        lemma_place(zip_names(archive_source(*a)), at as int, s.name_spec());
    }
    let marked = match entry_encrypted(a, at) {
        Ok(marked) => marked,
        Err(_) => return Err(Error::Corrupt),
    };
    if marked {
        match entry_size(a, at) {
            Ok(n) => if n < 28 {
                return Err(Error::Corrupt);
            },
            Err(_) => return Err(Error::Corrupt),
        }
    }
    match entry_plain(a, s.name(), key) {
        Ok(v) => Ok(v),
        Err(e) => Err(failure_on_read(fault_of(&e))),
    }
}

/// Whether what is read is these bytes.
pub open spec fn gives(r: Result<Seq<u8>, Error>, v: Seq<u8>) -> bool {
    r matches Ok(p) && p == v
}

/// Whether what is read is this error.
pub open spec fn fails(r: Result<Seq<u8>, Error>, e: Error) -> bool {
    r matches Err(x) && x == e
}

/// Whether a result of reading is the one that is owed: the same bytes, or
/// the same error.
pub open spec fn agrees(r: Result<Vec<u8>, Error>, s: Result<Seq<u8>, Error>) -> bool {
    match (r, s) {
        (Ok(v), Ok(p)) => v@ == p,
        (Err(e), Err(x)) => e == x,
        _ => false,
    }
}

/// The position of a slot in an open archive.
pub(crate) fn find_slot(a: &ZipArchive<Cursor<Vec<u8>>>, s: Slot) -> (r: Option<usize>)
    ensures
        r is Some <==> has_slot(archive_source(*a), s),
        r matches Some(i) ==> i < zip_names(archive_source(*a)).len() && zip_names(
            archive_source(*a),
        )[i as int] == s.name_spec(),
{
    let n = archive_len(a);
    let wanted = s.name();
    let ghost names = zip_names(archive_source(*a));
    let mut i: usize = 0;
    while i < n
        invariant
            n == names.len(),
            names == zip_names(archive_source(*a)),
            wanted@ == s.name_spec(),
            i <= n,
            forall|j: int| 0 <= j < i ==> names[j] != s.name_spec(),
        decreases n - i,
    {
        match entry_name(a, i) {
            Some(name) => {
                if same_text(name, wanted) {
                    return Some(i);
                }
            },
            None => {},
        }
        i = i + 1;
    }
    None
}

/// Reads a slot of a container and unseals it under the key.
pub fn read(container: Option<&[u8]>, s: Slot, key: &str) -> (r: Result<Vec<u8>, Error>)
    ensures
        agrees(r, read_spec(bytes_of(container), s, key@)),
{
    let bytes = match container {
        Some(b) => b,
        None => return Err(Error::NotFound),
    };
    let mut a = match open_archive(slice_to_vec(bytes)) {
        Ok(a) => a,
        Err(_) => return Err(Error::Corrupt),
    };
    match find_slot(&a, s) {
        Some(at) => unseal(&mut a, at, s, key),
        None => Err(Error::NotFound),
    }
}

/// What reading the stored bytes of a slot gives: `NotFound` without a
/// container or without the slot, `Corrupt` where the bytes are no archive or
/// the entry cannot be read, and else the entry as it is stored.
pub open spec fn sealed_spec(container: Option<Seq<u8>>, s: Slot) -> Result<Seq<u8>, Error> {
    match container {
        None => Err(Error::NotFound),
        Some(b) => if !zip_opens(b) {
            Err(Error::Corrupt)
        } else if !has_slot(b, s) {
            Err(Error::NotFound)
        } else {
            match sealed_slot(b, s) {
                Some(v) => Ok(v),
                None => Err(Error::Corrupt),
            }
        },
    }
}

/// Reads a slot of a container as it is stored, without unsealing it.
pub fn read_sealed(container: Option<&[u8]>, s: Slot) -> (r: Result<Vec<u8>, Error>)
    ensures
        agrees(r, sealed_spec(bytes_of(container), s)),
{
    let bytes = match container {
        Some(b) => b,
        None => return Err(Error::NotFound),
    };
    let mut a = match open_archive(slice_to_vec(bytes)) {
        Ok(a) => a,
        Err(_) => return Err(Error::Corrupt),
    };
    let at = match find_slot(&a, s) {
        Some(at) => at,
        None => return Err(Error::NotFound),
    };
    proof {
        lemma_place(zip_names(bytes@), at as int, s.name_spec());
    }
    match entry_sealed(&mut a, at) {
        Ok(v) => Ok(v),
        Err(_) => Err(Error::Corrupt),
    }
}

/// What reading the identity tag gives: `NotFound` without a container,
/// `Corrupt` where the bytes are no archive, and else the archive's comment.
pub open spec fn tag_spec(container: Option<Seq<u8>>) -> Result<Seq<u8>, Error> {
    match container {
        None => Err(Error::NotFound),
        Some(b) => if !zip_opens(b) {
            Err(Error::Corrupt)
        } else {
            Ok(zip_comment(b))
        },
    }
}

/// Reads the identity tag of a container. A container without a tag has the
/// empty one.
pub fn read_tag(container: Option<&[u8]>) -> (r: Result<Vec<u8>, Error>)
    ensures
        agrees(r, tag_spec(bytes_of(container))),
{
    let bytes = match container {
        Some(b) => b,
        None => return Err(Error::NotFound),
    };
    match open_archive(slice_to_vec(bytes)) {
        Ok(a) => Ok(slice_to_vec(archive_comment(&a))),
        Err(_) => Err(Error::Corrupt),
    }
}

/// What the identity rule says of a write.
#[derive(Clone, Copy, Debug, PartialEq, Eq, Structural)]
pub enum Verdict {
    /// The container already holds this record: nothing is to be written.
    Skip,
    /// A new container is to be built.
    Proceed,
}

/// The identity rule. A forced write, and one that finds no container, goes
/// ahead. Otherwise the container must open (`Corrupt`); a write without a tag
/// then goes ahead, one with the tag that is stored is skipped, and one with
/// another tag is a `Conflict`.
pub open spec fn check_spec(existing: Option<Seq<u8>>, tag: Option<Seq<u8>>, force: bool) -> Result<
    Verdict,
    Error,
> {
    if force || existing is None {
        Ok(Verdict::Proceed)
    } else if !zip_opens(existing->0) {
        Err(Error::Corrupt)
    } else if tag is None {
        Ok(Verdict::Proceed)
    } else if zip_comment(existing->0) == tag->0 {
        Ok(Verdict::Skip)
    } else {
        Err(Error::Conflict)
    }
}

/// Applies the identity rule to a write.
pub fn check(
    existing: Option<&[u8]>,
    identity_tag: Option<&str>,
    force: bool,
) -> (r: Result<Verdict, Error>)
    ensures
        r == check_spec(bytes_of(existing), tag_of(identity_tag), force),
{
    if force {
        return Ok(Verdict::Proceed);
    }
    let bytes = match existing {
        Some(b) => b,
        None => return Ok(Verdict::Proceed),
    };
    let a = match open_archive(slice_to_vec(bytes)) {
        Ok(a) => a,
        Err(_) => return Err(Error::Corrupt),
    };
    match identity_tag {
        None => Ok(Verdict::Proceed),
        Some(t) => {
            let stored = archive_comment(&a);
            if same_bytes(stored, t.as_bytes()) {
                Ok(Verdict::Skip)
            } else {
                Err(Error::Conflict)
            }
        },
    }
}

/// The outcome of a write.
#[derive(Clone, Debug)]
pub enum WriteOutcome {
    /// A new container was built: these bytes are to take the place of the
    /// old ones.
    Written(Vec<u8>),
    /// The container already holds the record; nothing changes.
    Skipped,
}

/// What `write` owes. Where the identity rule fails, its error; where it says
/// to skip, `Skipped`. Where it says to proceed, a container that is to be
/// merged must open (`Corrupt`); then either a container of which `built`
/// holds, or a failure of the build.
pub open spec fn write_post(
    existing: Option<Seq<u8>>,
    updates: Map<Slot, Seq<u8>>,
    tag: Option<Seq<u8>>,
    force: bool,
    key: Seq<char>,
    r: Result<WriteOutcome, Error>,
) -> bool {
    match check_spec(existing, tag, force) {
        Err(e) => r matches Err(x) && x == e,
        Ok(Verdict::Skip) => r matches Ok(WriteOutcome::Skipped),
        Ok(Verdict::Proceed) => if merges(existing, tag) && !zip_opens(existing->0) {
            r matches Err(x) && x == Error::Corrupt
        } else {
            match r {
                Ok(WriteOutcome::Written(b)) => built(existing, updates, tag, key, b@),
                Ok(WriteOutcome::Skipped) => false,
                Err(e) => e == Error::Io || e == Error::Corrupt,
            }
        },
    }
}

/// Writes a set of updates to a container.
///
/// Without `force`, a container that is already there is first held against
/// the identity tag: with the same tag the write is skipped, with another it
/// is a `Conflict`, and without a tag the write goes on. The container that
/// `build` then makes is returned as `Written`.
pub fn write(
    existing: Option<&[u8]>,
    updates: &Updates,
    identity_tag: Option<&str>,
    force: bool,
    key: &str,
) -> (r: Result<WriteOutcome, Error>)
    ensures
        write_post(bytes_of(existing), updates@, tag_of(identity_tag), force, key@, r),
{
    match check(existing, identity_tag, force) {
        Err(e) => Err(e),
        Ok(Verdict::Skip) => Ok(WriteOutcome::Skipped),
        Ok(Verdict::Proceed) => match build(existing, updates, identity_tag, key) {
            Ok(bytes) => Ok(WriteOutcome::Written(bytes)),
            Err(e) => Err(e),
        },
    }
}

} // verus!
