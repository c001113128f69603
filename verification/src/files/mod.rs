//! The two kinds of records of a conversation, each in containers of its own:
//! messages by their sequence index, attachments by their identity.

pub mod chat_files;
pub mod chat_messages;
pub mod commit;
pub mod index;
pub mod order;

pub use chat_files::ChatFile;
pub use chat_messages::ChatMessage;
