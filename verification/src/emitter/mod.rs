//! What the library tells the user interface.

pub mod toaster;
