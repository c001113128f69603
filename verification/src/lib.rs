//! An encrypted object store for conversations: every message and every
//! attachment lives in an archive of its own, made of named slots that are
//! sealed one by one under a single key.
//!
//! The library works on bytes. A caller hands in what a container file holds
//! (or that there is none) and gets back what the file is to hold next; the
//! reading and the renaming of files is the caller's part.
//!
//! `codec` reads and writes one container. `files` builds the two stores on
//! it, one for messages and one for attachments. `laws` states what holds of
//! them across calls. `outside` is the part that is stated and not proved:
//! the calls into other crates. `uri_scheme` and `emitter` serve the user
//! interface around the store.

pub mod codec;
pub mod emitter;
pub mod error;
pub mod files;
pub mod laws;
pub mod outside;
pub mod text;
pub mod uri_scheme;
