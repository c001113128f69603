//! Building the container that a write puts in the place of the old one.
//!
//! The archive is put together by the `zip` crate, which seals every slot
//! under a salt of its own choosing, so nothing can be said beforehand of the
//! bytes it makes. Two things are said instead. What the writer is handed is
//! stated step by step: which entries are copied, which contents are sealed
//! under which key, and which tag is set. And the finished archive is judged:
//! `accept` opens it and finds out whether it is the container that was asked
//! for, no more and no less. Only a container that it accepts is handed out.

use crate::codec::bytes_of;
use crate::codec::find_slot;
use crate::codec::gives;
use crate::codec::has_slot;
use crate::codec::is_slot_name;
use crate::codec::lemma_place;
use crate::codec::only_slots;
use crate::codec::sealed_strong;
use crate::codec::slot::lemma_names_differ;
use crate::codec::slot::Slot;
use crate::codec::slot::Updates;
use crate::codec::tag_of;
use crate::codec::unseal;
use crate::codec::unseal_spec;
use crate::codec::whole_slot;
use crate::codec::KEY_BITS;
use crate::codec::STORED;
use crate::error::Error;
use crate::outside::archive::archive_comment;
use crate::outside::archive::archive_len;
use crate::outside::archive::archive_source;
use crate::outside::archive::copy_verbatim;
use crate::outside::archive::draft_comment;
use crate::outside::archive::draft_handed;
use crate::outside::archive::draft_image;
use crate::outside::archive::entry_name;
use crate::outside::archive::entry_sealed;
use crate::outside::archive::entry_size;
use crate::outside::archive::entry_stored;
use crate::outside::archive::entry_strength;
use crate::outside::archive::fault_of;
use crate::outside::archive::finish;
use crate::outside::archive::least_sealed;
use crate::outside::archive::new_draft;
use crate::outside::archive::open_archive;
use crate::outside::archive::set_comment;
use crate::outside::archive::write_plain;
use crate::outside::archive::zip_comment;
use crate::outside::archive::zip_names;
use crate::outside::archive::zip_opens;
use crate::outside::archive::zip_sealed;
use crate::outside::archive::zip_size;
use crate::outside::archive::zip_stored;
use crate::outside::archive::zip_strength;
use crate::outside::archive::Draft;
use crate::outside::archive::Fault;
use crate::outside::archive::Handed;
use crate::text::same_bytes;
use std::io::Cursor;
use vstd::prelude::*;
use vstd::slice::slice_to_vec;
use zip::ZipArchive;

verus! {

/// Whether a write merges into the old container: it does where there is one
/// and no identity tag is tracked. A tagged container is replaced whole.
pub open spec fn merges(old: Option<Seq<u8>>, tag: Option<Seq<u8>>) -> bool {
    old is Some && tag is None
}

/// Whether a slot of the old container is carried over as it is stored: in a
/// merge, where it is a slot of attachments that the old container has and
/// the updates leave out.
pub open spec fn carried(
    old: Option<Seq<u8>>,
    updates: Map<Slot, Seq<u8>>,
    tag: Option<Seq<u8>>,
    s: Slot,
) -> bool {
    merges(old, tag) && s.of_attachment() && !updates.contains_key(s) && has_slot(old->0, s)
}

/// Whether the entry at a place of one archive is the entry at a place of
/// another, as it is stored: the same stored bytes, the same recorded length,
/// stored or compressed alike, and, where the length is that of a sealed
/// entry, sealed under a key of the same length.
pub open spec fn same_seal(b: Seq<u8>, k: int, old: Seq<u8>, i: int) -> bool {
    &&& zip_sealed(b, k) is Some
    &&& zip_sealed(b, k) == zip_sealed(old, i)
    &&& zip_size(b, k) is Some
    &&& zip_size(b, k) == zip_size(old, i)
    &&& zip_stored(b, k) == zip_stored(old, i)
    &&& zip_size(b, k)->0 >= least_sealed() ==> zip_strength(b, k) == zip_strength(old, i)
}

/// Whether a slot of a container is that slot of another, as it is stored.
pub open spec fn slot_carried(b: Seq<u8>, old: Seq<u8>, s: Slot) -> bool {
    same_seal(
        b,
        zip_names(b).index_of(s.name_spec()),
        old,
        zip_names(old).index_of(s.name_spec()),
    )
}

/// Whether a slot holds given contents as this store seals them: long enough
/// to be a sealed slot, sealed with AES-256, stored without compression, and
/// opening under the key to the contents.
pub open spec fn slot_fresh(b: Seq<u8>, s: Slot, key: Seq<char>, contents: Seq<u8>) -> bool {
    whole_slot(b, s) && sealed_strong(b, s) && gives(unseal_spec(b, s, key), contents)
}

/// What the new container holds for one slot: the new contents where the
/// updates bring any, sealed as this store seals; the old entry, as it was
/// stored, where the slot is carried over; and nothing otherwise.
pub open spec fn slot_written(
    old: Option<Seq<u8>>,
    updates: Map<Slot, Seq<u8>>,
    tag: Option<Seq<u8>>,
    key: Seq<char>,
    b: Seq<u8>,
    s: Slot,
) -> bool {
    if updates.contains_key(s) {
        has_slot(b, s) && slot_fresh(b, s, key, updates[s])
    } else if carried(old, updates, tag, s) {
        has_slot(b, s) && slot_carried(b, old->0, s)
    } else {
        !has_slot(b, s)
    }
}

/// The comment that a container has under a tag: the tag, and an empty one
/// where no tag is tracked.
pub open spec fn comment_of(tag: Option<Seq<u8>>) -> Seq<u8> {
    match tag {
        Some(t) => t,
        None => Seq::<u8>::empty(),
    }
}

/// What a write leaves behind. The new container opens, carries the tag as
/// its comment (an empty one where no tag is tracked), holds slots and nothing
/// else, none of them twice, and each slot is as `slot_written` says.
pub open spec fn written(
    old: Option<Seq<u8>>,
    updates: Map<Slot, Seq<u8>>,
    tag: Option<Seq<u8>>,
    key: Seq<char>,
    b: Seq<u8>,
) -> bool {
    &&& zip_opens(b)
    &&& zip_names(b).no_duplicates()
    &&& only_slots(b)
    &&& zip_comment(b) == comment_of(tag)
    &&& slot_written(old, updates, tag, key, b, Slot::Message)
    &&& slot_written(old, updates, tag, key, b, Slot::Meta)
    &&& slot_written(old, updates, tag, key, b, Slot::Summary)
    &&& slot_written(old, updates, tag, key, b, Slot::Data)
}

/// What the writer is handed for a slot: its name, the contents that the
/// updates bring for it, the key, and how it is to be sealed; nothing where
/// the updates bring nothing for the slot.
pub open spec fn fresh_handed(updates: Map<Slot, Seq<u8>>, s: Slot, key: Seq<char>) -> Seq<
    Handed,
> {
    if updates.contains_key(s) {
        seq![
            (Handed::Fresh {
                name: s.name_spec(),
                contents: updates[s],
                key,
                bits: KEY_BITS,
                stored: STORED,
            }),
        ]
    } else {
        Seq::<Handed>::empty()
    }
}

/// What the writer is handed for the updates, in the order in which the
/// slots are sealed.
pub open spec fn all_fresh(updates: Map<Slot, Seq<u8>>, key: Seq<char>) -> Seq<Handed> {
    fresh_handed(updates, Slot::Message, key) + fresh_handed(updates, Slot::Meta, key)
        + fresh_handed(updates, Slot::Summary, key) + fresh_handed(updates, Slot::Data, key)
}

/// Whether an entry of the old container is copied in a merge: its name is
/// that of an attachment slot for which the updates bring nothing.
pub open spec fn kept_name(updates: Map<Slot, Seq<u8>>, name: Seq<char>) -> bool {
    ||| name == Slot::Meta.name_spec() && !updates.contains_key(Slot::Meta)
    ||| name == Slot::Summary.name_spec() && !updates.contains_key(Slot::Summary)
    ||| name == Slot::Data.name_spec() && !updates.contains_key(Slot::Data)
}

/// What the writer is handed of the old container in a merge: a copy of
/// every entry among the first `upto` whose name is kept, in the order of the
/// old directory.
pub open spec fn copies(old: Seq<u8>, updates: Map<Slot, Seq<u8>>, upto: int) -> Seq<Handed>
    decreases upto,
{
    if upto <= 0 {
        Seq::<Handed>::empty()
    } else if kept_name(updates, zip_names(old)[upto - 1]) {
        copies(old, updates, upto - 1).push(
            (Handed::Copied { name: zip_names(old)[upto - 1], from: old, at: upto - 1 }),
        )
    } else {
        copies(old, updates, upto - 1)
    }
}

/// What the writer is handed of the old container: the copies of a merge,
/// and nothing where the write does not merge.
pub open spec fn all_copies(
    old: Option<Seq<u8>>,
    updates: Map<Slot, Seq<u8>>,
    tag: Option<Seq<u8>>,
) -> Seq<Handed> {
    if merges(old, tag) {
        copies(old->0, updates, zip_names(old->0).len() as int)
    } else {
        Seq::<Handed>::empty()
    }
}

/// How a container was put together: its bytes are those of a finished
/// draft that was handed the copies of the old container, then the contents
/// of the updates, each under the key and to be sealed as this store seals,
/// and whose comment is the tag.
pub open spec fn assembled(
    old: Option<Seq<u8>>,
    updates: Map<Slot, Seq<u8>>,
    tag: Option<Seq<u8>>,
    key: Seq<char>,
    b: Seq<u8>,
) -> bool {
    exists|last: Draft|
        #[trigger] draft_image(last) == b && draft_handed(last) == all_copies(old, updates, tag)
            + all_fresh(updates, key) && draft_comment(last) == comment_of(tag)
}

/// What `build` returns: a container that was put together as `assembled`
/// says and that reads as `written` says.
pub open spec fn built(
    old: Option<Seq<u8>>,
    updates: Map<Slot, Seq<u8>>,
    tag: Option<Seq<u8>>,
    key: Seq<char>,
    b: Seq<u8>,
) -> bool {
    written(old, updates, tag, key, b) && assembled(old, updates, tag, key, b)
}

/// The error that stands for a failure while an archive was put together: a
/// failed read or write is `Io`, every other failure says that an archive is
/// damaged.
pub open spec fn write_failure(f: Fault) -> Error {
    match f {
        Fault::Io => Error::Io,
        _ => Error::Corrupt,
    }
}

/// The error that stands for a failure while an archive was put together.
pub fn failure_on_write(f: Fault) -> (e: Error)
    ensures
        e == write_failure(f),
        e == Error::Io || e == Error::Corrupt,
{
    match f {
        Fault::Io => Error::Io,
        _ => Error::Corrupt,
    }
}

/// For each slot, a position in an archive's directory or none.
#[derive(Clone, Copy, Debug)]
struct Places {
    /// Where the message slot stands.
    message: Option<usize>,
    /// Where the metadata slot stands.
    meta: Option<usize>,
    /// Where the summary slot stands.
    summary: Option<usize>,
    /// Where the data slot stands.
    data: Option<usize>,
}

impl Places {
    /// The position noted for a slot.
    spec fn at(self, s: Slot) -> Option<usize> {
        match s {
            Slot::Message => self.message,
            Slot::Meta => self.meta,
            Slot::Summary => self.summary,
            Slot::Data => self.data,
        }
    }

    /// No position noted for any slot.
    fn empty() -> (p: Places)
        ensures
            forall|s: Slot| p.at(s) is None,
    {
        Places { message: None, meta: None, summary: None, data: None }
    }

    /// The position noted for a slot.
    fn get(&self, s: Slot) -> (r: Option<usize>)
        ensures
            r == self.at(s),
    {
        match s {
            Slot::Message => self.message,
            Slot::Meta => self.meta,
            Slot::Summary => self.summary,
            Slot::Data => self.data,
        }
    }

    /// Notes a position for a slot, or that it has none, and leaves the
    /// others as they are.
    fn set(&mut self, s: Slot, place: Option<usize>)
        ensures
            final(self).at(s) == place,
            forall|t: Slot| t != s ==> final(self).at(t) == old(self).at(t),
    {
        match s {
            Slot::Message => self.message = place,
            Slot::Meta => self.meta = place,
            Slot::Summary => self.summary = place,
            Slot::Data => self.data = place,
        }
    }
}

/// Whether a place is the position of a name among the first `upto` names, or
/// none where the name is not among them.
spec fn spotted(names: Seq<Seq<char>>, upto: int, place: Option<usize>, name: Seq<char>) -> bool {
    match place {
        Some(j) => 0 <= j < upto && names[j as int] == name,
        None => forall|j: int| 0 <= j < upto ==> names[j] != name,
    }
}

/// Whether the places are those of all slots among the first `upto` names.
spec fn all_spotted(names: Seq<Seq<char>>, upto: int, places: Places) -> bool {
    forall|s: Slot| #![trigger places.at(s)] spotted(names, upto, places.at(s), s.name_spec())
}

/// Whether the place noted for a slot of the old container is the place from
/// which it is carried over, and none where it is not carried over.
spec fn kept_right(
    old: Option<Seq<u8>>,
    updates: Map<Slot, Seq<u8>>,
    tag: Option<Seq<u8>>,
    kept: Places,
    s: Slot,
) -> bool {
    if merges(old, tag) && s.of_attachment() && !updates.contains_key(s) {
        spotted(zip_names(old->0), zip_names(old->0).len() as int, kept.at(s), s.name_spec())
    } else {
        kept.at(s) is None
    }
}

/// Whether a slot is in the directory of the new container exactly where it
/// was asked for: the updates bring contents for it, or it is carried over.
spec fn slot_listed(b: Seq<u8>, updates: Map<Slot, Seq<u8>>, kept: Places, s: Slot) -> bool {
    has_slot(b, s) <==> (updates.contains_key(s) || kept.at(s) is Some)
}

/// Whether the directory of the new container holds the slots that were
/// asked for, and nothing else.
spec fn directory_right(b: Seq<u8>, updates: Map<Slot, Seq<u8>>, kept: Places) -> bool {
    &&& only_slots(b)
    &&& slot_listed(b, updates, kept, Slot::Message)
    &&& slot_listed(b, updates, kept, Slot::Meta)
    &&& slot_listed(b, updates, kept, Slot::Summary)
    &&& slot_listed(b, updates, kept, Slot::Data)
}

/// Whether a slot for which the updates bring contents holds them, sealed as
/// this store seals.
spec fn fresh_right(b: Seq<u8>, updates: Map<Slot, Seq<u8>>, s: Slot, key: Seq<char>) -> bool {
    updates.contains_key(s) ==> has_slot(b, s) && slot_fresh(b, s, key, updates[s])
}

/// Whether a slot that is carried over is in the new container as it was
/// stored in the old one.
spec fn kept_as_stored(b: Seq<u8>, old: Option<Seq<u8>>, kept: Places, s: Slot) -> bool {
    kept.at(s) is Some && has_slot(b, s) ==> same_seal(
        b,
        zip_names(b).index_of(s.name_spec()),
        old->0,
        kept.at(s)->0 as int,
    )
}

/// For one slot, `slot_written` says what the three tests of `accept` find
/// out, no more and no less.
proof fn lemma_slot(
    old: Option<Seq<u8>>,
    updates: Map<Slot, Seq<u8>>,
    tag: Option<Seq<u8>>,
    key: Seq<char>,
    b: Seq<u8>,
    kept: Places,
    s: Slot,
)
    requires
        merges(old, tag) ==> zip_names(old->0).no_duplicates(),
        kept_right(old, updates, tag, kept, s),
    ensures
        slot_written(old, updates, tag, key, b, s) <==> (slot_listed(b, updates, kept, s)
            && fresh_right(b, updates, s, key) && kept_as_stored(b, old, kept, s)),
        kept.at(s) is Some <==> carried(old, updates, tag, s),
{
    if merges(old, tag) && s.of_attachment() && !updates.contains_key(s) {
        let names = zip_names(old->0);
        match kept.at(s) {
            Some(i) => {
                lemma_place(names, i as int, s.name_spec());
            },
            None => {
                assert(!names.contains(s.name_spec()));
            },
        }
    }
}

/// Where the attachment slots of the old container stand for which the
/// updates bring nothing.
fn survey(a: &ZipArchive<Cursor<Vec<u8>>>, updates: &Updates) -> (kept: Places)
    ensures
        forall|s: Slot|
            #![trigger kept.at(s)]
            if s.of_attachment() && !updates@.contains_key(s) {
                spotted(
                    zip_names(archive_source(*a)),
                    zip_names(archive_source(*a)).len() as int,
                    kept.at(s),
                    s.name_spec(),
                )
            } else {
                kept.at(s) is None
            },
{
    let mut kept = Places::empty();
    if updates.get(Slot::Meta).is_none() {
        kept.set(Slot::Meta, find_slot(a, Slot::Meta));
    }
    if updates.get(Slot::Summary).is_none() {
        kept.set(Slot::Summary, find_slot(a, Slot::Summary));
    }
    if updates.get(Slot::Data).is_none() {
        kept.set(Slot::Data, find_slot(a, Slot::Data));
    }
    kept
}

/// Walks the directory of the new archive: every entry must be a slot that
/// was asked for, and every slot that was asked for must have its entry. Gives
/// the place of each, and `None` where the directory is not as it was asked
/// for.
fn confirm_names(
    b: &ZipArchive<Cursor<Vec<u8>>>,
    updates: &Updates,
    kept: &Places,
) -> (r: Option<Places>)
    ensures
        r is Some <==> directory_right(archive_source(*b), updates@, *kept),
        r matches Some(found) ==> all_spotted(
            zip_names(archive_source(*b)),
            zip_names(archive_source(*b)).len() as int,
            found,
        ),
{
    let n = archive_len(b);
    let ghost src = archive_source(*b);
    let ghost names = zip_names(src);
    let mut found = Places::empty();
    let mut i: usize = 0;
    while i < n
        invariant
            n == names.len(),
            src == archive_source(*b),
            names == zip_names(src),
            i <= n,
            all_spotted(names, i as int, found),
            forall|j: int| 0 <= j < i ==> is_slot_name(#[trigger] names[j]),
            forall|s: Slot|
                #![trigger found.at(s)]
                found.at(s) is Some ==> (updates@.contains_key(s) || kept.at(s) is Some),
        decreases n - i,
    {
        let ghost before = found;
        let slot = match entry_name(b, i) {
            Some(name) => Slot::from_name(name),
            None => None,
        };
        let s = match slot {
            Some(s) => s,
            None => {
                proof {
                    assert(names[i as int] != Slot::Message.name_spec());
                    assert(names[i as int] != Slot::Meta.name_spec());
                    assert(names[i as int] != Slot::Summary.name_spec());
                    assert(names[i as int] != Slot::Data.name_spec());
                    assert(!is_slot_name(names[i as int]));
                }
                return None;
            },
        };
        if updates.get(s).is_none() && kept.get(s).is_none() {
            proof {
                assert(names.contains(names[i as int]));
                assert(has_slot(src, s));
                assert(!slot_listed(src, updates@, *kept, s));
                assert(s == Slot::Message || s == Slot::Meta || s == Slot::Summary || s
                    == Slot::Data);
            }
            return None;
        }
        found.set(s, Some(i));
        proof {
            assert forall|t: Slot| #![trigger found.at(t)] spotted(
                names,
                i + 1,
                found.at(t),
                t.name_spec(),
            ) by {
                lemma_names_differ(s, t);
                assert(spotted(names, i as int, before.at(t), t.name_spec()));
            }
        }
        i = i + 1;
    }
    let all = listed_as_asked(&found, updates, kept, Slot::Message) && listed_as_asked(
        &found,
        updates,
        kept,
        Slot::Meta,
    ) && listed_as_asked(&found, updates, kept, Slot::Summary) && listed_as_asked(
        &found,
        updates,
        kept,
        Slot::Data,
    );
    proof {
        assert forall|s: Slot| #![trigger found.at(s)] found.at(s) is Some <==> has_slot(
            src,
            s,
        ) by {
            assert(spotted(names, n as int, found.at(s), s.name_spec()));
            if found.at(s) is Some {
                assert(names[found.at(s)->0 as int] == s.name_spec());
            }
        }
        assert(found.at(Slot::Message) is Some <==> has_slot(src, Slot::Message));
        assert(found.at(Slot::Meta) is Some <==> has_slot(src, Slot::Meta));
        assert(found.at(Slot::Summary) is Some <==> has_slot(src, Slot::Summary));
        assert(found.at(Slot::Data) is Some <==> has_slot(src, Slot::Data));
    }
    if all {
        Some(found)
    } else {
        None
    }
}

/// Whether a slot was found exactly where it was asked for.
fn listed_as_asked(found: &Places, updates: &Updates, kept: &Places, s: Slot) -> (r: bool)
    ensures
        r == (found.at(s) is Some <==> (updates@.contains_key(s) || kept.at(s) is Some)),
{
    let asked = updates.get(s).is_some() || kept.get(s).is_some();
    asked == found.get(s).is_some()
}

/// Whether two key lengths are the same.
fn same_bits(a: Option<u16>, b: Option<u16>) -> (r: bool)
    ensures
        r == (a == b),
{
    match (a, b) {
        (Some(x), Some(y)) => x == y,
        (None, None) => true,
        _ => false,
    }
}

/// The length of the key that the entry at a place is sealed with.
fn strength_at(b: &mut ZipArchive<Cursor<Vec<u8>>>, at: usize) -> (r: Option<u16>)
    requires
        zip_size(archive_source(*old(b)), at as int) is Some,
        zip_size(archive_source(*old(b)), at as int)->0 >= least_sealed(),
    ensures
        archive_source(*final(b)) == archive_source(*old(b)),
        r == zip_strength(archive_source(*old(b)), at as int),
{
    match entry_strength(b, at) {
        Ok(Some(bits)) => Some(bits),
        _ => None,
    }
}

/// Whether the entry at a place is stored without compression.
fn stored_at(b: &mut ZipArchive<Cursor<Vec<u8>>>, at: usize) -> (r: bool)
    ensures
        archive_source(*final(b)) == archive_source(*old(b)),
        r == zip_stored(archive_source(*old(b)), at as int),
{
    match entry_stored(b, at) {
        Ok(stored) => stored,
        Err(_) => false,
    }
}

/// Finds out whether the slot that the updates brought contents for holds
/// them in the new archive, sealed as this store seals.
fn confirm_plain(
    b: &mut ZipArchive<Cursor<Vec<u8>>>,
    updates: &Updates,
    found: &Places,
    s: Slot,
    key: &str,
) -> (ok: bool)
    requires
        zip_names(archive_source(*old(b))).no_duplicates(),
        spotted(
            zip_names(archive_source(*old(b))),
            zip_names(archive_source(*old(b))).len() as int,
            found.at(s),
            s.name_spec(),
        ),
    ensures
        archive_source(*final(b)) == archive_source(*old(b)),
        ok <==> fresh_right(archive_source(*old(b)), updates@, s, key@),
{
    let data = match updates.get(s) {
        Some(data) => data,
        None => return true,
    };
    let at = match found.get(s) {
        Some(at) => at,
        None => {
            assert(!zip_names(archive_source(*b)).contains(s.name_spec()));
            return false;
        },
    };
    proof {
        lemma_place(zip_names(archive_source(*b)), at as int, s.name_spec());
    }
    match entry_size(b, at) {
        Ok(n) => if n < 28 {
            return false;
        },
        Err(_) => return false,
    }
    let bits = strength_at(b, at);
    let stored = stored_at(b, at);
    if !same_bits(bits, Some(KEY_BITS)) || stored != STORED {
        return false;
    }
    match unseal(b, at, s, key) {
        Ok(v) => same_bytes(v.as_slice(), data.as_slice()),
        Err(_) => false,
    }
}

/// Finds out whether a slot that was carried over is in the new archive as
/// it was stored in the old one.
fn confirm_sealed(
    b: &mut ZipArchive<Cursor<Vec<u8>>>,
    a: &mut ZipArchive<Cursor<Vec<u8>>>,
    found: &Places,
    kept: &Places,
    s: Slot,
) -> (ok: bool)
    requires
        zip_names(archive_source(*old(b))).no_duplicates(),
        spotted(
            zip_names(archive_source(*old(b))),
            zip_names(archive_source(*old(b))).len() as int,
            found.at(s),
            s.name_spec(),
        ),
    ensures
        archive_source(*final(b)) == archive_source(*old(b)),
        archive_source(*final(a)) == archive_source(*old(a)),
        ok <==> kept_as_stored(
            archive_source(*old(b)),
            Some(archive_source(*old(a))),
            *kept,
            s,
        ),
{
    let (k, i) = match (found.get(s), kept.get(s)) {
        (Some(k), Some(i)) => (k, i),
        (None, _) => {
            assert(!zip_names(archive_source(*b)).contains(s.name_spec()));
            return true;
        },
        (_, None) => return true,
    };
    proof {
        lemma_place(zip_names(archive_source(*b)), k as int, s.name_spec());
    }
    let new_bytes = match entry_sealed(b, k) {
        Ok(v) => v,
        Err(_) => return false,
    };
    let old_bytes = match entry_sealed(a, i) {
        Ok(v) => v,
        Err(_) => return false,
    };
    if !same_bytes(new_bytes.as_slice(), old_bytes.as_slice()) {
        return false;
    }
    let new_size = match entry_size(b, k) {
        Ok(n) => n,
        Err(_) => return false,
    };
    let old_size = match entry_size(a, i) {
        Ok(n) => n,
        Err(_) => return false,
    };
    if new_size != old_size {
        return false;
    }
    if stored_at(b, k) != stored_at(a, i) {
        return false;
    }
    if new_size >= 28 {
        let new_bits = strength_at(b, k);
        let old_bits = strength_at(a, i);
        if !same_bits(new_bits, old_bits) {
            return false;
        }
    }
    true
}

/// Finds out whether the comment, the directory and the fresh slots of a new
/// archive are as they were asked for, and gives the place of each slot.
fn confirm(
    b: &mut ZipArchive<Cursor<Vec<u8>>>,
    updates: &Updates,
    kept: &Places,
    identity_tag: Option<&str>,
    key: &str,
) -> (r: Option<Places>)
    requires
        zip_names(archive_source(*old(b))).no_duplicates(),
    ensures
        archive_source(*final(b)) == archive_source(*old(b)),
        r is Some <==> {
            let src = archive_source(*old(b));
            &&& zip_comment(src) == comment_of(tag_of(identity_tag))
            &&& directory_right(src, updates@, *kept)
            &&& fresh_right(src, updates@, Slot::Message, key@)
            &&& fresh_right(src, updates@, Slot::Meta, key@)
            &&& fresh_right(src, updates@, Slot::Summary, key@)
            &&& fresh_right(src, updates@, Slot::Data, key@)
        },
        r matches Some(found) ==> all_spotted(
            zip_names(archive_source(*old(b))),
            zip_names(archive_source(*old(b))).len() as int,
            found,
        ),
{
    let stored = archive_comment(b);
    let tag_right = match identity_tag {
        Some(t) => same_bytes(stored, t.as_bytes()),
        None => stored.len() == 0,
    };
    proof {
        if identity_tag is None {
            assert(stored@.len() == 0 <==> stored@ =~= Seq::<u8>::empty());
        }
    }
    if !tag_right {
        return None;
    }
    let found = match confirm_names(b, updates, kept) {
        Some(found) => found,
        None => return None,
    };
    proof {
        let names = zip_names(archive_source(*b));
        assert(spotted(names, names.len() as int, found.at(Slot::Message), Slot::Message.name_spec()));
        assert(spotted(names, names.len() as int, found.at(Slot::Meta), Slot::Meta.name_spec()));
        assert(spotted(names, names.len() as int, found.at(Slot::Summary), Slot::Summary.name_spec()));
        assert(spotted(names, names.len() as int, found.at(Slot::Data), Slot::Data.name_spec()));
    }
    if !confirm_plain(b, updates, &found, Slot::Message, key) {
        return None;
    }
    if !confirm_plain(b, updates, &found, Slot::Meta, key) {
        return None;
    }
    if !confirm_plain(b, updates, &found, Slot::Summary, key) {
        return None;
    }
    if !confirm_plain(b, updates, &found, Slot::Data, key) {
        return None;
    }
    Some(found)
}

/// Judges a finished archive: whether it is the container that a write of
/// the updates to the old container, under the tag and the key, is to leave
/// behind. It is accepted if and only if `written` holds of it; everything
/// else is `Corrupt`. Where the old container is to be merged and does not
/// open, there is nothing to hold the archive against, and it is refused.
pub fn accept(
    old: Option<&[u8]>,
    updates: &Updates,
    identity_tag: Option<&str>,
    key: &str,
    made: &[u8],
) -> (r: Result<(), Error>)
    ensures
        !merges(bytes_of(old), tag_of(identity_tag)) || zip_opens(bytes_of(old)->0) ==> (r is Ok
            <==> written(bytes_of(old), updates@, tag_of(identity_tag), key@, made@)),
        r matches Err(e) ==> e == Error::Corrupt,
{
    let ghost was = bytes_of(old);
    let ghost tag = tag_of(identity_tag);
    let mut b = match open_archive(slice_to_vec(made)) {
        Ok(b) => b,
        Err(_) => return Err(Error::Corrupt),
    };
    let source = match identity_tag {
        Some(_) => None,
        None => old,
    };
    match source {
        Some(o) => {
            let mut a = match open_archive(slice_to_vec(o)) {
                Ok(a) => a,
                Err(_) => return Err(Error::Corrupt),
            };
            let kept = survey(&a, updates);
            proof {
                assert(kept_right(was, updates@, tag, kept, Slot::Message));
                assert(kept_right(was, updates@, tag, kept, Slot::Meta));
                assert(kept_right(was, updates@, tag, kept, Slot::Summary));
                assert(kept_right(was, updates@, tag, kept, Slot::Data));
                lemma_slot(was, updates@, tag, key@, made@, kept, Slot::Message);
                lemma_slot(was, updates@, tag, key@, made@, kept, Slot::Meta);
                lemma_slot(was, updates@, tag, key@, made@, kept, Slot::Summary);
                lemma_slot(was, updates@, tag, key@, made@, kept, Slot::Data);
            }
            let found = match confirm(&mut b, updates, &kept, identity_tag, key) {
                Some(found) => found,
                None => return Err(Error::Corrupt),
            };
            proof {
                let names = zip_names(made@);
                assert(spotted(names, names.len() as int, found.at(Slot::Message), Slot::Message.name_spec()));
                assert(spotted(names, names.len() as int, found.at(Slot::Meta), Slot::Meta.name_spec()));
                assert(spotted(names, names.len() as int, found.at(Slot::Summary), Slot::Summary.name_spec()));
                assert(spotted(names, names.len() as int, found.at(Slot::Data), Slot::Data.name_spec()));
            }
            if !confirm_sealed(&mut b, &mut a, &found, &kept, Slot::Message) {
                return Err(Error::Corrupt);
            }
            if !confirm_sealed(&mut b, &mut a, &found, &kept, Slot::Meta) {
                return Err(Error::Corrupt);
            }
            if !confirm_sealed(&mut b, &mut a, &found, &kept, Slot::Summary) {
                return Err(Error::Corrupt);
            }
            if !confirm_sealed(&mut b, &mut a, &found, &kept, Slot::Data) {
                return Err(Error::Corrupt);
            }
            Ok(())
        },
        None => {
            let kept = Places::empty();
            proof {
                assert(!merges(was, tag));
                lemma_slot(was, updates@, tag, key@, made@, kept, Slot::Message);
                lemma_slot(was, updates@, tag, key@, made@, kept, Slot::Meta);
                lemma_slot(was, updates@, tag, key@, made@, kept, Slot::Summary);
                lemma_slot(was, updates@, tag, key@, made@, kept, Slot::Data);
            }
            match confirm(&mut b, updates, &kept, identity_tag, key) {
                Some(_) => Ok(()),
                None => Err(Error::Corrupt),
            }
        },
    }
}

/// Seals into the draft the contents that the updates bring for a slot.
///
/// Where the updates bring nothing for the slot, nothing is done: the draft
/// is as it was, and that cannot fail. Where they bring contents, these are
/// handed to the archive writer under the slot's name, with the key and the
/// way this store seals; if it takes them, the draft was handed that one
/// entry more and its comment is as it was.
fn put(w: &mut Draft, updates: &Updates, s: Slot, key: &str) -> (r: Result<(), Error>)
    ensures
        r matches Err(e) ==> e == Error::Io || e == Error::Corrupt,
        !updates@.contains_key(s) ==> r is Ok && *final(w) == *old(w),
        r is Ok ==> draft_handed(*final(w)) == draft_handed(*old(w)) + fresh_handed(
            updates@,
            s,
            key@,
        ),
        r is Ok ==> draft_comment(*final(w)) == draft_comment(*old(w)),
{
    match updates.get(s) {
        Some(data) => match write_plain(w, s.name(), data.as_slice(), key, KEY_BITS, STORED) {
            Ok(()) => {
                assert(draft_handed(*w) =~= draft_handed(*old(w)) + fresh_handed(
                    updates@,
                    s,
                    key@,
                ));
                Ok(())
            },
            Err(e) => Err(failure_on_write(fault_of(&e))),
        },
        None => {
            assert(draft_handed(*old(w)) + fresh_handed(updates@, s, key@) =~= draft_handed(
                *old(w),
            ));
            Ok(())
        },
    }
}

/// Copies into the draft, as they are stored, the attachment slots of the old
/// archive for which the updates bring nothing, in the order of the old
/// directory. Where every copy is taken, the draft was handed exactly these
/// copies more, and its comment is as it was.
fn carry(
    w: &mut Draft,
    a: &mut ZipArchive<Cursor<Vec<u8>>>,
    updates: &Updates,
) -> (r: Result<(), Error>)
    ensures
        archive_source(*final(a)) == archive_source(*old(a)),
        r matches Err(e) ==> e == Error::Io || e == Error::Corrupt,
        r is Ok ==> draft_handed(*final(w)) == draft_handed(*old(w)) + copies(
            archive_source(*old(a)),
            updates@,
            zip_names(archive_source(*old(a))).len() as int,
        ),
        r is Ok ==> draft_comment(*final(w)) == draft_comment(*old(w)),
{
    let n = archive_len(a);
    let ghost src = archive_source(*a);
    let ghost names = zip_names(src);
    let mut i: usize = 0;
    assert(draft_handed(*w) =~= draft_handed(*old(w)) + copies(src, updates@, 0));
    while i < n
        invariant
            n == names.len(),
            src == archive_source(*a),
            src == archive_source(*old(a)),
            names == zip_names(src),
            i <= n,
            draft_handed(*w) == draft_handed(*old(w)) + copies(src, updates@, i as int),
            draft_comment(*w) == draft_comment(*old(w)),
        decreases n - i,
    {
        let ghost so_far = copies(src, updates@, i as int);
        let slot = match entry_name(a, i) {
            Some(name) => Slot::from_name(name),
            None => None,
        };
        let keep = match slot {
            Some(Slot::Message) => false,
            Some(s) => updates.get(s).is_none(),
            None => false,
        };
        proof {
            match slot {
                Some(s) => {
                    lemma_names_differ(s, Slot::Meta);
                    lemma_names_differ(s, Slot::Summary);
                    lemma_names_differ(s, Slot::Data);
                },
                None => {
                    assert(names[i as int] != Slot::Meta.name_spec());
                    assert(names[i as int] != Slot::Summary.name_spec());
                    assert(names[i as int] != Slot::Data.name_spec());
                },
            }
            assert(keep == kept_name(updates@, names[i as int]));
        }
        if keep {
            match copy_verbatim(w, a, i) {
                Ok(()) => {},
                Err(e) => {
                    return Err(failure_on_write(fault_of(&e)));
                },
            }
            assert(draft_handed(*w) =~= draft_handed(*old(w)) + copies(src, updates@, i + 1));
        } else {
            assert(copies(src, updates@, i + 1) == so_far);
        }
        i = i + 1;
    }
    Ok(())
}

/// Whether bytes are what finishing a draft gives after the updates were
/// sealed into it and the tag was set: the bytes of a draft that was handed
/// what the first was handed, then the contents of the updates, and that has
/// the tag as its comment, or the comment of the first where there is no
/// tag.
pub open spec fn sealed_from(
    w: Draft,
    updates: Map<Slot, Seq<u8>>,
    tag: Option<Seq<u8>>,
    key: Seq<char>,
    bytes: Seq<u8>,
) -> bool {
    exists|last: Draft|
        #[trigger] draft_image(last) == bytes && draft_handed(last) == draft_handed(w) + all_fresh(
            updates,
            key,
        ) && draft_comment(last) == match tag {
            Some(t) => t,
            None => draft_comment(w),
        }
}

/// Seals the updates into the draft, sets the identity tag and finishes the
/// archive.
///
/// Every step is the archive writer's, so success is never owed. What is
/// returned on success are the bytes of the draft as `sealed_from` describes
/// it. Whether they read back as they were written is for `accept` to find
/// out.
fn seal(
    w: Draft,
    updates: &Updates,
    identity_tag: Option<&str>,
    key: &str,
) -> (r: Result<Vec<u8>, Error>)
    ensures
        r matches Err(e) ==> e == Error::Io || e == Error::Corrupt,
        r matches Ok(bytes) ==> sealed_from(w, updates@, tag_of(identity_tag), key@, bytes@),
{
    let ghost first = w;
    let mut w = w;
    match put(&mut w, updates, Slot::Message, key) {
        Ok(()) => {},
        Err(e) => return Err(e),
    }
    match put(&mut w, updates, Slot::Meta, key) {
        Ok(()) => {},
        Err(e) => return Err(e),
    }
    match put(&mut w, updates, Slot::Summary, key) {
        Ok(()) => {},
        Err(e) => return Err(e),
    }
    match put(&mut w, updates, Slot::Data, key) {
        Ok(()) => {},
        Err(e) => return Err(e),
    }
    match identity_tag {
        Some(t) => set_comment(&mut w, t),
        None => {},
    }
    let ghost last = w;
    proof {
        assert(draft_handed(last) =~= draft_handed(first) + all_fresh(updates@, key@));
    }
    match finish(w) {
        Ok(bytes) => {
            assert(draft_image(last) == bytes@);
            Ok(bytes)
        },
        Err(e) => Err(failure_on_write(fault_of(&e))),
    }
}

/// Builds the container that a write puts in the place of the old one.
///
/// A write with an identity tag replaces the container whole. One without a
/// tag merges: the attachment slots of the old container for which the
/// updates bring nothing are copied as they are stored, without being
/// unsealed. The contents that the updates bring are sealed under the key.
/// The finished archive is then judged by `accept`, so the bytes that are
/// returned are a container of which `built` holds.
///
/// An old container that is to be merged and does not open is `Corrupt`. Any
/// other failure comes from the archive writer, which is `Io` or `Corrupt`,
/// or from `accept`, which is `Corrupt`.
pub fn build(
    old: Option<&[u8]>,
    updates: &Updates,
    identity_tag: Option<&str>,
    key: &str,
) -> (r: Result<Vec<u8>, Error>)
    ensures
        r matches Ok(b) ==> built(bytes_of(old), updates@, tag_of(identity_tag), key@, b@),
        r matches Err(e) ==> e == Error::Io || e == Error::Corrupt,
        merges(bytes_of(old), tag_of(identity_tag)) && !zip_opens(bytes_of(old)->0) ==> (r matches Err(
            e,
        ) && e == Error::Corrupt),
{
    let mut w = new_draft();
    let ghost empty = w;
    let source = match identity_tag {
        Some(_) => None,
        None => old,
    };
    match source {
        Some(o) => {
            let mut a = match open_archive(slice_to_vec(o)) {
                Ok(a) => a,
                Err(_) => return Err(Error::Corrupt),
            };
            match carry(&mut w, &mut a, updates) {
                Ok(()) => {},
                Err(e) => return Err(e),
            }
        },
        None => {},
    }
    let ghost filled = w;
    proof {
        assert(draft_handed(empty) =~= Seq::<Handed>::empty());
        assert(draft_comment(empty) =~= Seq::<u8>::empty());
        assert(draft_handed(filled) =~= all_copies(
            bytes_of(old),
            updates@,
            tag_of(identity_tag),
        ));
    }
    let bytes = match seal(w, updates, identity_tag, key) {
        Ok(bytes) => bytes,
        Err(e) => return Err(e),
    };
    proof {
        let last = choose|last: Draft|
            #[trigger] draft_image(last) == bytes@ && draft_handed(last) == draft_handed(filled)
                + all_fresh(updates@, key@) && draft_comment(last) == match tag_of(identity_tag) {
                Some(t) => t,
                None => draft_comment(filled),
            };
        assert(draft_image(last) == bytes@);
        assert(draft_comment(last) == comment_of(tag_of(identity_tag)));
        assert(assembled(bytes_of(old), updates@, tag_of(identity_tag), key@, bytes@));
    }
    match accept(old, updates, identity_tag, key, bytes.as_slice()) {
        Ok(()) => Ok(bytes),
        Err(e) => Err(e),
    }
}

} // verus!
