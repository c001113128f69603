//! The attachments of a conversation: one container for each attachment.
//!
//! An attachment container has up to three slots: `meta.json` with the media
//! type and the file name, `summary.txt`, and `data`. Each slot is filled
//! once: a later save adds what is still missing and leaves what is there as
//! it is stored.

use crate::codec::agrees;
use crate::codec::bytes_of;
use crate::codec::find_slot;
use crate::codec::has_slot;
use crate::codec::merge::built;
use crate::codec::read;
use crate::codec::read_spec;
use crate::codec::slot::Slot;
use crate::codec::slot::Updates;
use crate::codec::WriteOutcome;
use crate::error::Error;
use crate::outside::archive::open_archive;
use crate::outside::archive::zip_opens;
use crate::outside::embedded::data_url_body;
use crate::outside::embedded::decode_data_url;
use crate::outside::json::json_quote;
use crate::outside::json::json_quoted;
use crate::outside::mime::extensions_of;
use crate::outside::mime::mime_extensions;
use crate::text::text_bytes;
use vstd::prelude::*;
use vstd::slice::slice_to_vec;
use vstd::string::StringExecFns;

verus! {

/// Where the contents of an attachment come from.
#[derive(Clone, Debug)]
pub enum ChatFileData {
    /// A URL: a `data:` URL carries the contents in itself, any other is to
    /// be fetched.
    Url(String),
    /// The path of a local file.
    Path(String),
    /// The identity of a stored note, whose text is the contents.
    RefId(String),
}

/// What is to be done to have the contents of an attachment.
#[derive(Clone, Debug)]
pub enum Fetch {
    /// Nothing: here they are.
    Ready(Vec<u8>),
    /// Fetch this URL.
    Remote(String),
    /// Read this file.
    Local(String),
    /// Look this note up and take its text.
    Note(String),
}

/// Whether a text begins with `data:`.
pub open spec fn is_data_url(url: Seq<char>) -> bool {
    text_bytes(url).len() >= 5 && text_bytes(url).subrange(0, 5) == seq![
        100u8,
        97u8,
        116u8,
        97u8,
        58u8,
    ]
}

/// What `to_data` owes for each source: the decoded body of a `data:` URL, or
/// `Decode` where it has none; and for every other source the step that
/// brings the contents.
pub open spec fn resolved(source: ChatFileData, r: Result<Fetch, Error>) -> bool {
    match (source, r) {
        (ChatFileData::Url(u), Ok(Fetch::Ready(b))) => is_data_url(u@) && data_url_body(u@)
            == Some(b@),
        (ChatFileData::Url(u), Err(e)) => is_data_url(u@) && data_url_body(u@) is None && e
            == Error::Decode,
        (ChatFileData::Url(u), Ok(Fetch::Remote(x))) => !is_data_url(u@) && x@ == u@,
        (ChatFileData::Path(p), Ok(Fetch::Local(x))) => x@ == p@,
        (ChatFileData::RefId(i), Ok(Fetch::Note(x))) => x@ == i@,
        _ => false,
    }
}

impl ChatFileData {
    /// Decides how the contents are had. A `data:` URL is decoded on the
    /// spot; everything else is left to the caller as one step.
    pub fn to_data(&self) -> (r: Result<Fetch, Error>)
        ensures
            resolved(*self, r),
    {
        match self {
            ChatFileData::Url(url) => {
                let bytes = url.as_str().as_bytes();
                let embedded = bytes.len() >= 5 && bytes[0] == 100 && bytes[1] == 97 && bytes[2]
                    == 116 && bytes[3] == 97 && bytes[4] == 58;
                proof {
                    let head = text_bytes(url@).subrange(0, 5);
                    if embedded {
                        assert(head =~= seq![100u8, 97u8, 116u8, 97u8, 58u8]);
                    } else if bytes.len() >= 5 {
                        assert(head[0] == bytes@[0] && head[1] == bytes@[1] && head[2] == bytes@[2]
                            && head[3] == bytes@[3] && head[4] == bytes@[4]);
                    }
                }
                if embedded {
                    match decode_data_url(url.as_str()) {
                        Some(body) => Ok(Fetch::Ready(body)),
                        None => Err(Error::Decode),
                    }
                } else {
                    Ok(Fetch::Remote(url.clone()))
                }
            },
            ChatFileData::Path(path) => Ok(Fetch::Local(path.clone())),
            ChatFileData::RefId(id) => Ok(Fetch::Note(id.clone())),
        }
    }
}

/// An attachment that is to be stored.
#[derive(Clone, Debug)]
pub struct ChatFile {
    /// The conversation that the attachment belongs to.
    pub chat_id: String,
    /// The identity of the attachment.
    pub file_id: String,
    /// The media type of the contents.
    pub media_type: String,
    /// The file name, where the caller knows one.
    pub filename: Option<String>,
    /// A summary of the contents.
    pub summary: Option<String>,
    /// Where the contents come from.
    pub data: Option<ChatFileData>,
}

/// The file name that stands in for an attachment whose media type gives no
/// extension: `data.` and the first extension that is known for the type.
pub open spec fn guessed_name(media_type: Seq<char>) -> Option<Seq<char>> {
    match mime_extensions(media_type) {
        Some(all) => if all.len() > 0 {
            Some("data."@ + all[0])
        } else {
            None
        },
        None => None,
    }
}

/// The metadata of an attachment as JSON text: an object of the media type
/// and the file name.
pub open spec fn meta_text(media_type: Seq<char>, name: Seq<char>) -> Seq<char> {
    "{\"media_type\":"@ + json_quoted(media_type) + ",\"filename\":"@ + json_quoted(name) + "}"@
}

/// What `save` owes. A container that is there must open (`Corrupt`). Then
/// either the new container, into which the slots that were missing and that
/// the attachment has contents for are written, or a failure of the build.
pub open spec fn save_post(
    file: ChatFile,
    existing: Option<Seq<u8>>,
    data: Option<Vec<u8>>,
    key: Seq<char>,
    r: Result<Vec<u8>, Error>,
) -> bool {
    if existing is Some && !zip_opens(existing->0) {
        r matches Err(e) && e == Error::Corrupt
    } else {
        match r {
            Ok(b) => built(existing, file.fill(existing, data), None, key, b@),
            Err(e) => e == Error::Io || e == Error::Corrupt,
        }
    }
}

impl ChatFile {
    /// The file name: the one that the caller gave, else one guessed from
    /// the media type.
    pub open spec fn filename_spec(self) -> Option<Seq<char>> {
        match self.filename {
            Some(n) => Some(n@),
            None => guessed_name(self.media_type@),
        }
    }

    /// The file name that goes into the metadata: `unknown` where there is
    /// none.
    pub open spec fn resolved_name(self) -> Seq<char> {
        match self.filename_spec() {
            Some(n) => n,
            None => "unknown"@,
        }
    }

    /// The metadata slot's contents.
    pub open spec fn meta_spec(self) -> Seq<u8> {
        text_bytes(meta_text(self.media_type@, self.resolved_name()))
    }

    /// What the attachment has for a slot.
    pub open spec fn offer(self, data: Option<Vec<u8>>, s: Slot) -> Option<Seq<u8>> {
        match s {
            Slot::Message => None,
            Slot::Meta => Some(self.meta_spec()),
            Slot::Summary => match self.summary {
                Some(t) => Some(text_bytes(t@)),
                None => None,
            },
            Slot::Data => match data {
                Some(d) => Some(d@),
                None => None,
            },
        }
    }

    /// What a save writes: for every slot that the container does not have
    /// yet, what the attachment has for it.
    pub open spec fn fill(self, existing: Option<Seq<u8>>, data: Option<Vec<u8>>) -> Map<
        Slot,
        Seq<u8>,
    > {
        Map::new(
            |s: Slot| self.offer(data, s) is Some && !(existing is Some && has_slot(existing->0, s)),
            |s: Slot| self.offer(data, s)->0,
        )
    }

    /// The file name of the attachment, if it has one or one can be guessed.
    pub fn filename(&self) -> (r: Option<String>)
        ensures
            r is Some <==> self.filename_spec() is Some,
            r matches Some(n) ==> self.filename_spec() == Some(n@),
    {
        match &self.filename {
            Some(name) => Some(name.clone()),
            None => match extensions_of(self.media_type.as_str()) {
                Some(all) => if all.len() > 0 {
                    let mut name = "data.".to_owned();
                    name.append(all[0]);
                    Some(name)
                } else {
                    None
                },
                None => None,
            },
        }
    }

    /// The contents of the metadata slot.
    pub fn meta(&self) -> (r: Vec<u8>)
        ensures
            r@ == self.meta_spec(),
    {
        let name = match self.filename() {
            Some(n) => n,
            None => "unknown".to_owned(),
        };
        let mut text = "{\"media_type\":".to_owned();
        text.append(json_quote(self.media_type.as_str()).as_str());
        text.append(",\"filename\":");
        text.append(json_quote(name.as_str()).as_str());
        text.append("}");
        slice_to_vec(text.as_str().as_bytes())
    }

    /// Stores the attachment, given what its container file holds so far and
    /// the contents that were resolved for it. Returns the bytes that the
    /// file is to hold from now on.
    pub fn save(
        self,
        existing: Option<&[u8]>,
        data: Option<Vec<u8>>,
        key: &str,
    ) -> (r: Result<Vec<u8>, Error>)
        ensures
            save_post(self, bytes_of(existing), data, key@, r),
    {
        let mut has_meta = false;
        let mut has_summary = false;
        let mut has_data = false;
        match existing {
            Some(bytes) => {
                let a = match open_archive(slice_to_vec(bytes)) {
                    Ok(a) => a,
                    Err(_) => return Err(Error::Corrupt),
                };
                has_meta = find_slot(&a, Slot::Meta).is_some();
                has_summary = find_slot(&a, Slot::Summary).is_some();
                has_data = find_slot(&a, Slot::Data).is_some();
            },
            None => {},
        }
        let meta = if has_meta {
            None
        } else {
            Some(self.meta())
        };
        let summary = match &self.summary {
            Some(t) => if has_summary {
                None
            } else {
                Some(slice_to_vec(t.as_str().as_bytes()))
            },
            None => None,
        };
        let ghost offered = data;
        let contents = if has_data {
            None
        } else {
            data
        };
        let updates = Updates { message: None, meta, summary, data: contents };
        assert(updates@ =~= self.fill(bytes_of(existing), offered));
        match crate::codec::write(existing, &updates, None, true, key) {
            Ok(WriteOutcome::Written(bytes)) => Ok(bytes),
            Ok(WriteOutcome::Skipped) => Err(Error::Corrupt),
            Err(e) => Err(e),
        }
    }

    /// Reads a slot of an attachment container.
    pub fn read(container: Option<&[u8]>, s: Slot, key: &str) -> (r: Result<Vec<u8>, Error>)
        ensures
            agrees(r, read_spec(bytes_of(container), s, key@)),
    {
        read(container, s, key)
    }
}

} // verus!
