//! The named slots of a container, and a set of updates to them.

use crate::text::same_text;
use vstd::prelude::*;

verus! {

/// A slot of a container. A message container has the one slot `Message`; an
/// attachment container has up to three: `Meta`, `Summary` and `Data`.
#[derive(Clone, Copy, Debug, PartialEq, Eq, Structural)]
pub enum Slot {
    /// The payload of a message.
    Message,
    /// Media type and file name of an attachment.
    Meta,
    /// The summary of an attachment, as text.
    Summary,
    /// The contents of an attachment.
    Data,
}

impl Slot {
    /// The name of the archive entry that holds the slot.
    pub open spec fn name_spec(self) -> Seq<char> {
        match self {
            Slot::Message => "message.json"@,
            Slot::Meta => "meta.json"@,
            Slot::Summary => "summary.txt"@,
            Slot::Data => "data"@,
        }
    }

    /// Whether a slot belongs to attachment containers, whose slots a later
    /// write keeps where it brings nothing for them.
    pub open spec fn of_attachment(self) -> bool {
        self != Slot::Message
    }

    /// The name of the archive entry that holds the slot.
    pub fn name(self) -> (n: &'static str)
        ensures
            n@ == self.name_spec(),
    {
        match self {
            Slot::Message => "message.json",
            Slot::Meta => "meta.json",
            Slot::Summary => "summary.txt",
            Slot::Data => "data",
        }
    }

    /// The slot that an entry name stands for, if any.
    pub fn from_name(name: &str) -> (r: Option<Slot>)
        ensures
            r matches Some(s) ==> name@ == s.name_spec(),
            r is None ==> forall|s: Slot| name@ != #[trigger] s.name_spec(),
    {
        if same_text(name, "message.json") {
            Some(Slot::Message)
        } else if same_text(name, "meta.json") {
            Some(Slot::Meta)
        } else if same_text(name, "summary.txt") {
            Some(Slot::Summary)
        } else if same_text(name, "data") {
            Some(Slot::Data)
        } else {
            None
        }
    }
}

/// No two slots share a name.
pub proof fn lemma_names_differ(a: Slot, b: Slot)
    ensures
        a.name_spec() == b.name_spec() <==> a == b,
{
    reveal_strlit("message.json");
    reveal_strlit("meta.json");
    reveal_strlit("summary.txt");
    reveal_strlit("data");
    assert("message.json"@.len() == 12);
    assert("meta.json"@.len() == 9);
    assert("summary.txt"@.len() == 11);
    assert("data"@.len() == 4);
}

/// What a write brings: for each slot, new contents or nothing.
#[derive(Clone, Debug)]
pub struct Updates {
    /// New contents of the message slot.
    pub message: Option<Vec<u8>>,
    /// New contents of the metadata slot.
    pub meta: Option<Vec<u8>>,
    /// New contents of the summary slot.
    pub summary: Option<Vec<u8>>,
    /// New contents of the data slot.
    pub data: Option<Vec<u8>>,
}

impl View for Updates {
    type V = Map<Slot, Seq<u8>>;

    /// The updates as a map from the slots they touch to the new contents.
    open spec fn view(&self) -> Map<Slot, Seq<u8>> {
        Map::new(
            |s: Slot| self.field(s) is Some,
            |s: Slot| self.field(s)->0@,
        )
    }
}

impl Updates {
    /// The field that belongs to a slot.
    pub open spec fn field(self, s: Slot) -> Option<Vec<u8>> {
        match s {
            Slot::Message => self.message,
            Slot::Meta => self.meta,
            Slot::Summary => self.summary,
            Slot::Data => self.data,
        }
    }

    /// Updates that touch no slot.
    pub fn none() -> (u: Updates)
        ensures
            forall|s: Slot| !u@.contains_key(s),
    {
        let u = Updates { message: None, meta: None, summary: None, data: None };
        assert(u@ =~= Map::<Slot, Seq<u8>>::empty());
        u
    }

    /// The new contents for a slot, if the updates bring any.
    pub fn get(&self, s: Slot) -> (r: Option<&Vec<u8>>)
        ensures
            r is Some <==> self@.contains_key(s),
            r matches Some(v) ==> v@ == self@[s],
    {
        match s {
            Slot::Message => self.message.as_ref(),
            Slot::Meta => self.meta.as_ref(),
            Slot::Summary => self.summary.as_ref(),
            Slot::Data => self.data.as_ref(),
        }
    }
}

} // verus!
