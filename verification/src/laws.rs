//! What holds of the store across calls.
//!
//! Each law is stated over the spec functions that the contracts of the
//! store use, and proved from them. A law that speaks of the result of a call
//! takes that result as a parameter, together with what the call's contract
//! establishes of it.

use crate::codec::check_spec;
use crate::codec::fails;
use crate::codec::gives;
use crate::codec::has_slot;
use crate::codec::merge::written;
use crate::codec::read_spec;
use crate::codec::sealed_slot;
use crate::codec::sealed_spec;
use crate::codec::sealed_strong;
use crate::codec::slot::Slot;
use crate::codec::tag_spec;
use crate::codec::whole_slot;
use crate::codec::Verdict;
use crate::codec::write_post;
use crate::codec::WriteOutcome;
use crate::error::Error;
use crate::files::chat_files::ChatFile;
use crate::files::chat_messages::ChatMessage;
use crate::files::chat_messages::has_stray;
use crate::files::chat_messages::in_order;
use crate::files::chat_messages::is_member;
use crate::files::chat_messages::is_order;
use crate::files::chat_messages::message_spec;
use crate::files::chat_messages::names_of;
use crate::files::chat_messages::read_all_post;
use crate::files::chat_messages::StoredFile;
use crate::files::index::all_digits;
use crate::files::index::digits_value;
use crate::files::index::file_name_spec;
use crate::files::index::index_digits;
use crate::files::index::is_message_name;
use crate::files::index::parse_spec;
use crate::files::index::stem;
use crate::files::index::suffix;
use crate::files::index::unsigned_part;
use crate::files::order::lemma_ascending_unique;
use crate::outside::archive::zip_opens;
use crate::text::lemma_texts_by_bytes;
use crate::text::text_bytes;
use vstd::prelude::*;

verus! {

/// Round trip, for any write: a slot that a write brought contents for reads
/// back, under the same key, as those contents.
pub proof fn law_written_slot_reads_back(
    old: Option<Seq<u8>>,
    updates: Map<Slot, Seq<u8>>,
    tag: Option<Seq<u8>>,
    key: Seq<char>,
    b: Seq<u8>,
    s: Slot,
)
    requires
        written(old, updates, tag, key, b),
        updates.contains_key(s),
    ensures
        gives(read_spec(Some(b), s, key), updates[s]),
{
}

/// Sealing: a slot that a write brought contents for is sealed with AES
/// under a key of 256 bits and stored without compression.
pub proof fn law_written_slot_is_sealed(
    old: Option<Seq<u8>>,
    updates: Map<Slot, Seq<u8>>,
    tag: Option<Seq<u8>>,
    key: Seq<char>,
    b: Seq<u8>,
    s: Slot,
)
    requires
        written(old, updates, tag, key, b),
        updates.contains_key(s),
    ensures
        sealed_strong(b, s),
{
}

/// A container that a write made carries the tag of that write.
pub proof fn law_written_tag_reads_back(
    old: Option<Seq<u8>>,
    updates: Map<Slot, Seq<u8>>,
    tag: Seq<u8>,
    key: Seq<char>,
    b: Seq<u8>,
)
    requires
        written(old, updates, Some(tag), key, b),
    ensures
        gives(tag_spec(Some(b)), tag),
{
}

/// Merge preservation, for any write without a tag: an attachment slot that
/// the old container has and the updates leave out is in the new container
/// with the very bytes it was stored with.
pub proof fn law_merge_keeps_sealed_bytes(
    old: Seq<u8>,
    updates: Map<Slot, Seq<u8>>,
    key: Seq<char>,
    b: Seq<u8>,
    s: Slot,
)
    requires
        written(Some(old), updates, None, key, b),
        s.of_attachment(),
        has_slot(old, s),
        !updates.contains_key(s),
    ensures
        has_slot(b, s),
        sealed_slot(b, s) is Some,
        sealed_slot(b, s) == sealed_slot(old, s),
        zip_opens(old) ==> sealed_spec(Some(b), s) == sealed_spec(Some(old), s),
{
}

/// A slot that is carried over keeps its seal: where it was long enough to
/// be a sealed slot, sealed with AES-256 and stored without compression in
/// the old container, it is so in the new one.
pub proof fn law_carried_slot_keeps_its_seal(
    old: Seq<u8>,
    updates: Map<Slot, Seq<u8>>,
    key: Seq<char>,
    b: Seq<u8>,
    s: Slot,
)
    requires
        written(Some(old), updates, None, key, b),
        s.of_attachment(),
        has_slot(old, s),
        !updates.contains_key(s),
        whole_slot(old, s),
        sealed_strong(old, s),
    ensures
        whole_slot(b, s),
        sealed_strong(b, s),
{
}

/// Every slot of a container that was merged from one in which every slot
/// was sealed as this store seals, is sealed so.
pub proof fn law_every_slot_stays_sealed(
    old: Seq<u8>,
    updates: Map<Slot, Seq<u8>>,
    key: Seq<char>,
    b: Seq<u8>,
    s: Slot,
)
    requires
        written(Some(old), updates, None, key, b),
        forall|t: Slot| has_slot(old, t) ==> whole_slot(old, t) && sealed_strong(old, t),
        has_slot(b, s),
    ensures
        whole_slot(b, s),
        sealed_strong(b, s),
{
}

/// Every slot of a container that was written where there was none, or
/// under a tag, is sealed as this store seals.
pub proof fn law_first_slots_are_sealed(
    old: Option<Seq<u8>>,
    updates: Map<Slot, Seq<u8>>,
    tag: Option<Seq<u8>>,
    key: Seq<char>,
    b: Seq<u8>,
    s: Slot,
)
    requires
        written(old, updates, tag, key, b),
        old is None || tag is Some,
        has_slot(b, s),
    ensures
        whole_slot(b, s),
        sealed_strong(b, s),
{
}

/// A write puts nothing into a container but what it was asked for: a slot
/// that the updates leave out and that is not carried over from the old
/// container is absent, and reading it is `NotFound`.
pub proof fn law_nothing_else_is_written(
    old: Option<Seq<u8>>,
    updates: Map<Slot, Seq<u8>>,
    tag: Option<Seq<u8>>,
    key: Seq<char>,
    b: Seq<u8>,
    s: Slot,
)
    requires
        written(old, updates, tag, key, b),
        !updates.contains_key(s),
        tag is Some || old is None || !s.of_attachment() || !has_slot(old->0, s),
    ensures
        !has_slot(b, s),
        fails(read_spec(Some(b), s, key), Error::NotFound),
{
}

/// Idempotence of the codec: where a write with a tag made a container, any
/// later write with the same tag and without force is skipped.
pub proof fn law_same_tag_is_skipped(
    old: Option<Seq<u8>>,
    updates: Map<Slot, Seq<u8>>,
    tag: Seq<u8>,
    key: Seq<char>,
    b: Seq<u8>,
    later: Map<Slot, Seq<u8>>,
    r: Result<WriteOutcome, Error>,
)
    requires
        written(old, updates, Some(tag), key, b),
        write_post(Some(b), later, Some(tag), false, key, r),
    ensures
        r matches Ok(WriteOutcome::Skipped),
{
}

/// Conflict: where a write with a tag made a container, a later write with
/// another tag and without force fails with `Conflict`; with force it is not
/// held against the container at all.
pub proof fn law_other_tag_conflicts(
    old: Option<Seq<u8>>,
    updates: Map<Slot, Seq<u8>>,
    tag: Seq<u8>,
    key: Seq<char>,
    b: Seq<u8>,
    other: Seq<u8>,
)
    requires
        written(old, updates, Some(tag), key, b),
        other != tag,
    ensures
        check_spec(Some(b), Some(other), false) matches Err(e) && e == Error::Conflict,
        check_spec(Some(b), Some(other), true) matches Ok(v) && v == Verdict::Proceed,
{
}

/// Round trip for messages: the container that a save wrote reads back as the
/// payload that was saved.
pub proof fn law_message_round_trip(
    message: ChatMessage,
    existing: Option<Seq<u8>>,
    key: Seq<char>,
    r: Result<Option<Vec<u8>>, Error>,
)
    requires
        crate::files::chat_messages::save_post(message, existing, key, r),
        r matches Ok(Some(_)),
    ensures
        message.message is Some,
        gives(message_spec(r->Ok_0->0@, key), message.message->0@),
        gives(tag_spec(Some(r->Ok_0->0@)), text_bytes(message.message_id@)),
{
    let b = r->Ok_0->0@;
    let p = message.message->0@;
    assert(crate::files::chat_messages::message_update(p).contains_key(Slot::Message));
    assert(crate::files::chat_messages::message_update(p)[Slot::Message] == p);
}

/// Idempotence for messages: once a save has written a message, saving a
/// message of the same identity again without force writes nothing and
/// returns `None`, whatever payload it brings and however often it is done.
pub proof fn law_message_save_is_idempotent(
    message: ChatMessage,
    existing: Option<Seq<u8>>,
    key: Seq<char>,
    r: Result<Option<Vec<u8>>, Error>,
    again: ChatMessage,
    r2: Result<Option<Vec<u8>>, Error>,
)
    requires
        crate::files::chat_messages::save_post(message, existing, key, r),
        r matches Ok(Some(_)),
        again.message_id@ == message.message_id@,
        !again.forced(),
        crate::files::chat_messages::save_post(again, Some(r->Ok_0->0@), key, r2),
    ensures
        r2 matches Ok(None),
{
}

/// A message of another identity is refused at an index that is taken, unless
/// the save is forced.
pub proof fn law_message_conflict(
    message: ChatMessage,
    existing: Option<Seq<u8>>,
    key: Seq<char>,
    r: Result<Option<Vec<u8>>, Error>,
    other: ChatMessage,
    r2: Result<Option<Vec<u8>>, Error>,
)
    requires
        crate::files::chat_messages::save_post(message, existing, key, r),
        r matches Ok(Some(_)),
        other.message_id@ != message.message_id@,
        !other.forced(),
        crate::files::chat_messages::save_post(other, Some(r->Ok_0->0@), key, r2),
    ensures
        r2 matches Err(e) && e == Error::Conflict,
{
    lemma_texts_by_bytes(other.message_id@, message.message_id@);
}

/// Fill-once for attachments: a slot that the container already has is in the
/// container that a save returns, with the very bytes it was stored with,
/// whatever the save brings for it.
pub proof fn law_attachment_slot_is_filled_once(
    file: ChatFile,
    existing: Seq<u8>,
    data: Option<Vec<u8>>,
    key: Seq<char>,
    r: Result<Vec<u8>, Error>,
    s: Slot,
)
    requires
        crate::files::chat_files::save_post(file, Some(existing), data, key, r),
        r is Ok,
        s.of_attachment(),
        has_slot(existing, s),
    ensures
        has_slot(r->Ok_0@, s),
        sealed_slot(r->Ok_0@, s) is Some,
        sealed_slot(r->Ok_0@, s) == sealed_slot(existing, s),
{
    assert(!file.fill(Some(existing), data).contains_key(s));
}

/// Round trip for attachments: a slot that the container did not have yet and
/// that the attachment has contents for reads back as those contents.
pub proof fn law_attachment_round_trip(
    file: ChatFile,
    existing: Option<Seq<u8>>,
    data: Option<Vec<u8>>,
    key: Seq<char>,
    r: Result<Vec<u8>, Error>,
    s: Slot,
)
    requires
        crate::files::chat_files::save_post(file, existing, data, key, r),
        r is Ok,
        file.offer(data, s) is Some,
        existing is Some ==> !has_slot(existing->0, s),
    ensures
        gives(read_spec(Some(r->Ok_0@), s, key), file.offer(data, s)->0),
{
    assert(file.fill(existing, data).contains_key(s));
}

/// Every attachment container that a save returns has its metadata.
pub proof fn law_attachment_has_meta(
    file: ChatFile,
    existing: Option<Seq<u8>>,
    data: Option<Vec<u8>>,
    key: Seq<char>,
    r: Result<Vec<u8>, Error>,
)
    requires
        crate::files::chat_files::save_post(file, existing, data, key, r),
        r is Ok,
    ensures
        has_slot(r->Ok_0@, Slot::Meta),
        !has_slot(r->Ok_0@, Slot::Message),
{
    let fill = file.fill(existing, data);
    assert(!fill.contains_key(Slot::Message));
    if !fill.contains_key(Slot::Meta) {
        assert(existing is Some && has_slot(existing->0, Slot::Meta));
    }
}

/// An index below ten thousand is the sum of its four decimal digits, each
/// at its weight; a larger one is the sum of its five.
proof fn lemma_decimal(n: u16)
    ensures
        n == ((n / 10000) % 10) * 10000 + ((n / 1000) % 10) * 1000 + ((n / 100) % 10) * 100 + ((n
            / 10) % 10) * 10 + n % 10,
        n < 10000 ==> (n / 10000) % 10 == 0,
{
    let a = n / 10;
    let b = n / 100;
    let c = n / 1000;
    let e = n / 10000;
    assert(n == a * 10 + n % 10);
    assert(b == a / 10 && a == b * 10 + a % 10);
    assert(c == b / 10 && b == c * 10 + b % 10);
    assert(e == c / 10 && c == e * 10 + c % 10);
    assert(e < 10);
}

/// The value of digits, one more at a time.
proof fn lemma_one_more_digit(s: Seq<u8>, d: u8)
    ensures
        digits_value(s.push(d)) == digits_value(s) * 10 + (d - 48) as nat,
{
    assert(s.push(d).drop_last() == s);
    assert(s.push(d).last() == d);
}

/// The digits of an index write that index.
pub proof fn law_index_survives_its_digits(n: u16)
    ensures
        parse_spec(index_digits(n)) == Some(n),
{
    let d0 = (48 + n % 10) as u8;
    let d1 = (48 + (n / 10) % 10) as u8;
    let d2 = (48 + (n / 100) % 10) as u8;
    let d3 = (48 + (n / 1000) % 10) as u8;
    let d4 = (48 + (n / 10000) % 10) as u8;
    let d = index_digits(n);
    lemma_decimal(n);
    let e = Seq::<u8>::empty();
    assert(digits_value(e) == 0);
    if n < 10000 {
        assert(d =~= e.push(d3).push(d2).push(d1).push(d0));
        lemma_one_more_digit(e, d3);
        lemma_one_more_digit(e.push(d3), d2);
        lemma_one_more_digit(e.push(d3).push(d2), d1);
        lemma_one_more_digit(e.push(d3).push(d2).push(d1), d0);
    } else {
        assert(d =~= e.push(d4).push(d3).push(d2).push(d1).push(d0));
        lemma_one_more_digit(e, d4);
        lemma_one_more_digit(e.push(d4), d3);
        lemma_one_more_digit(e.push(d4).push(d3), d2);
        lemma_one_more_digit(e.push(d4).push(d3).push(d2), d1);
        lemma_one_more_digit(e.push(d4).push(d3).push(d2).push(d1), d0);
    }
    assert(digits_value(d) == n);
    assert(d.len() > 0 && d[0] != 43);
    assert(unsigned_part(d) == d);
    assert(all_digits(d));
}

/// The file name of an index is that of a message container and holds the
/// index: what is saved at an index is found again at that index.
pub proof fn law_index_survives_its_file_name(n: u16)
    ensures
        is_message_name(file_name_spec(n)),
        parse_spec(stem(file_name_spec(n))) == Some(n),
{
    let name = file_name_spec(n);
    let d = index_digits(n);
    assert(name.subrange(name.len() - 8, name.len() as int) =~= suffix());
    assert(stem(name) =~= d);
    law_index_survives_its_digits(n);
}

/// Strict index parsing: one message file whose name holds no index fails the
/// whole read with `Parse`, whatever else the listing holds.
pub proof fn law_stray_fails_read_all(
    listing: Seq<StoredFile>,
    key: Seq<char>,
    r: Result<Vec<Vec<u8>>, Error>,
    at: int,
)
    requires
        read_all_post(listing, key, r),
        0 <= at < listing.len(),
        is_message_name(listing[at].name@),
        parse_spec(stem(listing[at].name@)) is None,
    ensures
        r matches Err(e) && e == Error::Parse,
{
    let names = names_of(listing);
    assert(names[at] == listing[at].name@);
    assert(has_stray(names));
}

/// The reading order of a listing is one: two orders of the same listing are
/// the same.
pub proof fn law_order_is_unique(
    names: Seq<Seq<u8>>,
    a: Seq<(u16, usize)>,
    b: Seq<(u16, usize)>,
)
    requires
        is_order(names, a),
        is_order(names, b),
    ensures
        a == b,
{
    assert forall|y: (u16, usize)| a.contains(y) <==> b.contains(y) by {
        assert(a.contains(y) <==> is_member(names, y));
        assert(b.contains(y) <==> is_member(names, y));
    }
    lemma_ascending_unique(a, b);
}

/// Ordering: what `read_all` returns are the payloads of the listing's message
/// files by ascending index, one for each file, whatever the order of the
/// listing.
pub proof fn law_read_all_is_ordered(
    listing: Seq<StoredFile>,
    key: Seq<char>,
    r: Result<Vec<Vec<u8>>, Error>,
    order: Seq<(u16, usize)>,
)
    requires
        read_all_post(listing, key, r),
        is_order(names_of(listing), order),
        r is Ok,
    ensures
        r->Ok_0@.len() == order.len(),
        forall|k: int, l: int| 0 <= k < l < order.len() ==> order[k].0 <= order[l].0,
        forall|k: int|
            0 <= k < order.len() ==> gives(
                message_spec(listing[order[k].1 as int].bytes@, key),
                #[trigger] r->Ok_0@[k]@,
            ),
{
    let names = names_of(listing);
    assert(!has_stray(names));
    let found = choose|o: Seq<(u16, usize)>| is_order(names, o) && in_order(listing, o, key, r);
    law_order_is_unique(names, found, order);
    assert(in_order(listing, order, key, r));
}

/// Ordering, from end to end: where every file of a listing is a message
/// container under the file name of its index, and each reads as its
/// payload, `read_all` succeeds, every message is among what it returns, and
/// what it returns goes by ascending index, whatever the order of the
/// listing.
pub proof fn law_saved_messages_read_back_in_order(
    listing: Seq<StoredFile>,
    indices: Seq<u16>,
    payloads: Seq<Seq<u8>>,
    key: Seq<char>,
    r: Result<Vec<Vec<u8>>, Error>,
    order: Seq<(u16, usize)>,
)
    requires
        listing.len() <= usize::MAX,
        indices.len() == listing.len(),
        payloads.len() == listing.len(),
        forall|p: int|
            0 <= p < listing.len() ==> (#[trigger] listing[p]).name@ == file_name_spec(indices[p]),
        forall|p: int|
            0 <= p < listing.len() ==> gives(
                message_spec((#[trigger] listing[p]).bytes@, key),
                payloads[p],
            ),
        read_all_post(listing, key, r),
        is_order(names_of(listing), order),
    ensures
        r is Ok,
        r->Ok_0@.len() == order.len(),
        forall|p: int|
            0 <= p < listing.len() ==> order.contains((#[trigger] indices[p], p as usize)),
        forall|k: int|
            0 <= k < order.len() ==> order[k].1 < listing.len() && order[k].0 == indices[order[k].1 as int]
                && (#[trigger] r->Ok_0@[k])@ == payloads[order[k].1 as int],
        forall|k: int, l: int|
            0 <= k < l < order.len() ==> indices[order[k].1 as int] <= indices[order[l].1 as int],
{
    let names = names_of(listing);
    assert forall|p: int| 0 <= p < names.len() && is_message_name(
        #[trigger] names[p],
    ) implies parse_spec(stem(names[p])) is Some by {
        assert(names[p] == listing[p].name@);
        law_index_survives_its_file_name(indices[p]);
    }
    assert(!has_stray(names));
    let found = choose|o: Seq<(u16, usize)>| is_order(names, o) && in_order(listing, o, key, r);
    law_order_is_unique(names, found, order);
    assert forall|k: int| 0 <= k < order.len() implies (#[trigger] order[k]).1 < listing.len()
        && order[k].0 == indices[order[k].1 as int] by {
        assert(order.contains(order[k]));
        assert(is_member(names, order[k]));
        let p = order[k].1 as int;
        assert(names[p] == listing[p].name@);
        law_index_survives_its_file_name(indices[p]);
    }
    if r is Err {
        let e = r->Err_0;
        let k = choose|k: int|
            0 <= k < order.len() && message_spec(
                listing[(#[trigger] order[k]).1 as int].bytes@,
                key,
            ) == Err::<Seq<u8>, Error>(e);
        let p = order[k].1 as int;
        assert(gives(message_spec(listing[p].bytes@, key), payloads[p]));
    }
    assert forall|p: int| 0 <= p < listing.len() implies order.contains(
        (#[trigger] indices[p], p as usize),
    ) by {
        assert(names[p] == listing[p].name@);
        law_index_survives_its_file_name(indices[p]);
        assert(is_member(names, (indices[p], p as usize)));
    }
    assert forall|k: int| 0 <= k < order.len() implies (#[trigger] r->Ok_0@[k])@
        == payloads[order[k].1 as int] by {
        let p = order[k].1 as int;
        assert(gives(message_spec(listing[p].bytes@, key), payloads[p]));
    }
    assert forall|k: int, l: int| 0 <= k < l < order.len() implies indices[order[k].1 as int]
        <= indices[order[l].1 as int] by {
        assert(crate::files::order::before(order[k], order[l]));
    }
}

} // verus!
