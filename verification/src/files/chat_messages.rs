//! The messages of a conversation: one container for each sequence index.
//!
//! A message container has the single slot `message.json`, which holds the
//! payload as JSON text, and carries the identity of the message as its tag.

use crate::codec::agrees;
use crate::codec::bytes_of;
use crate::codec::check;
use crate::codec::check_spec;
use crate::codec::merge::build;
use crate::codec::merge::built;
use crate::codec::read;
use crate::codec::read_spec;
use crate::codec::slot::Slot;
use crate::codec::slot::Updates;
use crate::codec::Verdict;
use crate::error::Error;
use crate::files::index::file_name;
use crate::files::index::file_name_spec;
use crate::files::index::has_suffix;
use crate::files::index::index_of_name;
use crate::files::index::is_message_name;
use crate::files::index::parse_spec;
use crate::files::index::stem;
use crate::files::order::ascending;
use crate::files::order::insert;
use crate::outside::json::is_json;
use crate::outside::json::json_valid;
use crate::text::text_bytes;
use vstd::prelude::*;
use vstd::slice::slice_to_vec;

verus! {

/// A message that is to be stored.
#[derive(Clone, Debug)]
pub struct ChatMessage {
    /// The conversation that the message belongs to.
    pub chat_id: String,
    /// The place of the message in the conversation.
    pub index: u16,
    /// The identity of the message.
    pub message_id: String,
    /// The payload, as JSON text; `None` stands for a null payload.
    pub message: Option<Vec<u8>>,
    /// Whether a message that is already stored at the index is overwritten.
    pub force: Option<bool>,
}

/// A file of a conversation's directory: its name and what it holds.
#[derive(Clone, Debug)]
pub struct StoredFile {
    /// The file's name, without the directory.
    pub name: Vec<u8>,
    /// The file's contents.
    pub bytes: Vec<u8>,
}

/// The updates that write one payload to the message slot.
pub open spec fn message_update(payload: Seq<u8>) -> Map<Slot, Seq<u8>> {
    Map::<Slot, Seq<u8>>::empty().insert(Slot::Message, payload)
}

/// What reading a message container gives: the payload where the message slot
/// opens under the key and holds JSON; `Corrupt` where it holds anything else;
/// the error of the read where it does not open.
pub open spec fn message_spec(container: Seq<u8>, key: Seq<char>) -> Result<Seq<u8>, Error> {
    match read_spec(Some(container), Slot::Message, key) {
        Ok(p) => if json_valid(p) {
            Ok(p)
        } else {
            Err(Error::Corrupt)
        },
        Err(e) => Err(e),
    }
}

/// The names of the files of a listing.
pub open spec fn names_of(listing: Seq<StoredFile>) -> Seq<Seq<u8>> {
    Seq::new(listing.len(), |i: int| listing[i].name@)
}

/// The names behind a vector of names.
pub open spec fn names_view(names: Seq<Vec<u8>>) -> Seq<Seq<u8>> {
    Seq::new(names.len(), |i: int| names[i]@)
}

/// Whether a pair of index and position stands for a message file of the
/// listing: the name at the position is that of a message container and holds
/// the index.
pub open spec fn is_member(names: Seq<Seq<u8>>, y: (u16, usize)) -> bool {
    y.1 < names.len() && is_message_name(names[y.1 as int]) && parse_spec(
        stem(names[y.1 as int]),
    ) == Some(y.0)
}

/// Whether some name of the listing is that of a message container and holds
/// no index.
pub open spec fn has_stray(names: Seq<Seq<u8>>) -> bool {
    exists|p: int|
        0 <= p < names.len() && is_message_name(#[trigger] names[p]) && parse_spec(
            stem(names[p]),
        ) is None
}

/// Whether a sequence is the reading order of a listing: it holds the message
/// files of the listing, each once, by ascending index, and files of one
/// index in the order of the listing.
pub open spec fn is_order(names: Seq<Seq<u8>>, order: Seq<(u16, usize)>) -> bool {
    ascending(order) && forall|y: (u16, usize)| order.contains(y) <==> is_member(names, y)
}

/// What reading the messages in an order gives: all payloads in that order,
/// or the error of the first container that fails.
pub open spec fn in_order(
    listing: Seq<StoredFile>,
    order: Seq<(u16, usize)>,
    key: Seq<char>,
    r: Result<Vec<Vec<u8>>, Error>,
) -> bool {
    match r {
        Ok(v) => v@.len() == order.len() && forall|k: int|
            0 <= k < order.len() ==> message_spec(listing[order[k].1 as int].bytes@, key) == Ok::<
                Seq<u8>,
                Error,
            >(#[trigger] v@[k]@),
        Err(e) => exists|k: int|
            0 <= k < order.len() && message_spec(
                listing[(#[trigger] order[k]).1 as int].bytes@,
                key,
            ) == Err::<Seq<u8>, Error>(e) && forall|j: int|
                0 <= j < k ==> message_spec(
                    listing[(#[trigger] order[j]).1 as int].bytes@,
                    key,
                ) is Ok,
    }
}

/// What `read_all` owes: `Parse` where the listing has a stray message file,
/// and else what reading in the listing's order gives.
pub open spec fn read_all_post(
    listing: Seq<StoredFile>,
    key: Seq<char>,
    r: Result<Vec<Vec<u8>>, Error>,
) -> bool {
    if has_stray(names_of(listing)) {
        r matches Err(e) && e == Error::Parse
    } else {
        exists|order: Seq<(u16, usize)>|
            is_order(names_of(listing), order) && in_order(listing, order, key, r)
    }
}

/// What `save` owes. The identity rule comes first: its error, or `None`
/// where the message is already stored. A message that is to be written needs
/// a payload (`NullMessage`) that is JSON (`Decode`). Then either the new
/// container, which holds the payload under the key and the identity as its
/// tag, or a failure of the build.
pub open spec fn save_post(
    message: ChatMessage,
    existing: Option<Seq<u8>>,
    key: Seq<char>,
    r: Result<Option<Vec<u8>>, Error>,
) -> bool {
    let tag = Some(text_bytes(message.message_id@));
    match check_spec(existing, tag, message.forced()) {
        Err(e) => r matches Err(x) && x == e,
        Ok(Verdict::Skip) => r matches Ok(None),
        Ok(Verdict::Proceed) => match message.message {
            None => r matches Err(x) && x == Error::NullMessage,
            Some(p) => if !json_valid(p@) {
                r matches Err(x) && x == Error::Decode
            } else {
                match r {
                    Ok(Some(b)) => built(existing, message_update(p@), tag, key, b@),
                    Ok(None) => false,
                    Err(e) => e == Error::Io || e == Error::Corrupt,
                }
            },
        },
    }
}

impl ChatMessage {
    /// Whether the message overwrites what is stored at its index.
    pub open spec fn forced(self) -> bool {
        self.force == Some(true)
    }

    /// The name of the message's container within its conversation.
    pub fn file_name(&self) -> (name: Vec<u8>)
        ensures
            name@ == file_name_spec(self.index),
    {
        file_name(self.index)
    }

    /// Stores the message, given what its container file holds so far.
    /// `Some` brings the bytes that the file is to hold from now on; `None`
    /// says that the message is stored already and nothing is to be done.
    pub fn save(self, existing: Option<&[u8]>, key: &str) -> (r: Result<Option<Vec<u8>>, Error>)
        ensures
            save_post(self, bytes_of(existing), key@, r),
    {
        let force = match self.force {
            Some(f) => f,
            None => false,
        };
        let id = self.message_id.as_str();
        match check(existing, Some(id), force) {
            Err(e) => return Err(e),
            Ok(Verdict::Skip) => return Ok(None),
            Ok(Verdict::Proceed) => {},
        }
        let payload = match self.message {
            Some(p) => p,
            None => return Err(Error::NullMessage),
        };
        if !is_json(payload.as_slice()) {
            return Err(Error::Decode);
        }
        let updates = Updates { message: Some(payload), meta: None, summary: None, data: None };
        assert(updates@ =~= message_update(payload@));
        match build(existing, &updates, Some(id), key) {
            Ok(bytes) => Ok(Some(bytes)),
            Err(e) => Err(e),
        }
    }

    /// Reads the payload of one message container.
    pub fn read_one(container: &[u8], key: &str) -> (r: Result<Vec<u8>, Error>)
        ensures
            agrees(r, message_spec(container@, key@)),
    {
        match read(Some(container), Slot::Message, key) {
            Ok(p) => if is_json(p.as_slice()) {
                Ok(p)
            } else {
                Err(Error::Corrupt)
            },
            Err(e) => Err(e),
        }
    }

    /// Picks the message files out of the names of a conversation's directory
    /// and puts them in reading order, each with its index and its position
    /// among the names. A name that ends in `.message` and holds no index
    /// fails the whole listing with `Parse`.
    pub fn plan(names: &Vec<Vec<u8>>) -> (r: Result<Vec<(u16, usize)>, Error>)
        ensures
            r is Err <==> has_stray(names_view(names@)),
            r matches Err(e) ==> e == Error::Parse,
            r matches Ok(order) ==> is_order(names_view(names@), order@),
    {
        let ghost all = names_view(names@);
        let mut order: Vec<(u16, usize)> = Vec::new();
        let mut p: usize = 0;
        while p < names.len()
            invariant
                all == names_view(names@),
                p <= names.len(),
                ascending(order@),
                forall|q: int|
                    0 <= q < p && is_message_name(#[trigger] all[q]) ==> parse_spec(stem(all[q]))
                        is Some,
                forall|y: (u16, usize)|
                    #![trigger order@.contains(y)]
                    order@.contains(y) <==> (is_member(all, y) && y.1 < p),
            decreases names.len() - p,
        {
            let name = names[p].as_slice();
            let ghost earlier = order@;
            assert(name@ == all[p as int]);
            if has_suffix(name) {
                match index_of_name(name) {
                    Some(i) => {
                        assert(!order@.contains((i, p)));
                        insert(&mut order, (i, p));
                        assert forall|y: (u16, usize)| #![trigger order@.contains(y)]
                            order@.contains(y) <==> (is_member(all, y) && y.1 < p + 1) by {
                            assert(earlier.contains(y) <==> (is_member(all, y) && y.1 < p));
                            assert(y == (y.0, y.1));
                        }
                    },
                    None => {
                        return Err(Error::Parse);
                    },
                }
            } else {
                assert forall|y: (u16, usize)| #![trigger order@.contains(y)]
                    order@.contains(y) <==> (is_member(all, y) && y.1 < p + 1) by {
                    assert(earlier.contains(y) <==> (is_member(all, y) && y.1 < p));
                }
            }
            p = p + 1;
        }
        assert forall|y: (u16, usize)| order@.contains(y) <==> is_member(all, y) by {
            assert(order@.contains(y) <==> (is_member(all, y) && y.1 < p));
        }
        Ok(order)
    }

    /// Reads all messages of a conversation, given the files of its
    /// directory, in ascending order of their indices. The first container
    /// that fails in that order fails the whole read.
    pub fn read_all(listing: &Vec<StoredFile>, key: &str) -> (r: Result<Vec<Vec<u8>>, Error>)
        ensures
            read_all_post(listing@, key@, r),
    {
        let mut names: Vec<Vec<u8>> = Vec::new();
        let mut i: usize = 0;
        while i < listing.len()
            invariant
                i <= listing.len(),
                names@.len() == i,
                forall|j: int| 0 <= j < i ==> (#[trigger] names@[j])@ == listing@[j].name@,
            decreases listing.len() - i,
        {
            names.push(slice_to_vec(listing[i].name.as_slice()));
            i = i + 1;
        }
        assert(names_view(names@) =~= names_of(listing@));
        let order = match Self::plan(&names) {
            Ok(order) => order,
            Err(e) => return Err(e),
        };
        assert forall|j: int| 0 <= j < order@.len() implies (#[trigger] order@[j]).1
            < listing@.len() by {
            assert(order@.contains(order@[j]));
            assert(is_member(names_of(listing@), order@[j]));
        }
        gather(listing, &order, key)
    }
}

/// Reads the message containers at the positions of an order, one after the
/// other, and stops at the first that fails.
fn gather(
    listing: &Vec<StoredFile>,
    order: &Vec<(u16, usize)>,
    key: &str,
) -> (r: Result<Vec<Vec<u8>>, Error>)
    requires
        forall|j: int| 0 <= j < order@.len() ==> (#[trigger] order@[j]).1 < listing@.len(),
    ensures
        in_order(listing@, order@, key@, r),
{
    let mut payloads: Vec<Vec<u8>> = Vec::new();
    let mut k: usize = 0;
    while k < order.len()
        invariant
            k <= order.len(),
            forall|j: int| 0 <= j < order@.len() ==> (#[trigger] order@[j]).1 < listing@.len(),
            payloads@.len() == k,
            forall|j: int|
                0 <= j < k ==> message_spec(listing@[order@[j].1 as int].bytes@, key@) == Ok::<
                    Seq<u8>,
                    Error,
                >(#[trigger] payloads@[j]@),
        decreases order.len() - k,
    {
        let at = order[k].1;
        match ChatMessage::read_one(listing[at].bytes.as_slice(), key) {
            Ok(p) => {
                payloads.push(p);
            },
            Err(e) => {
                proof {
                    let w = k as int;
                    assert(message_spec(listing@[order@[w].1 as int].bytes@, key@) == Err::<
                        Seq<u8>,
                        Error,
                    >(e));
                    assert forall|j: int| 0 <= j < w implies message_spec(
                        listing@[(#[trigger] order@[j]).1 as int].bytes@,
                        key@,
                    ) is Ok by {
                        assert(message_spec(listing@[order@[j].1 as int].bytes@, key@) == Ok::<
                            Seq<u8>,
                            Error,
                        >(payloads@[j]@));
                    }
                }
                return Err(e);
            },
        }
        k = k + 1;
    }
    Ok(payloads)
}


} // verus!
