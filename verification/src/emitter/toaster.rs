//! Notices for the user interface. The library says what a notice holds; the
//! application sends it.

use vstd::prelude::*;

verus! {

/// How serious a notice is.
#[derive(Clone, Copy, Debug, PartialEq, Eq, Structural)]
pub enum Level {
    /// Something worth knowing.
    Info,
    /// Something that may need attention.
    Warning,
    /// Something went wrong.
    Error,
    /// Something went well.
    Success,
}

impl Level {
    /// The word that the user interface knows the level by.
    pub open spec fn name_spec(self) -> Seq<char> {
        match self {
            Level::Info => "info"@,
            Level::Warning => "warning"@,
            Level::Error => "error"@,
            Level::Success => "success"@,
        }
    }

    /// The word that the user interface knows the level by.
    pub fn name(self) -> (n: &'static str)
        ensures
            n@ == self.name_spec(),
    {
        match self {
            Level::Info => "info",
            Level::Warning => "warning",
            Level::Error => "error",
            Level::Success => "success",
        }
    }
}

/// A notice: its level, its title and, where there is one, a longer text.
#[derive(Clone, Copy, Debug)]
pub struct ToasterEvent<'a> {
    /// How serious the notice is.
    pub level: Level,
    /// The headline.
    pub title: &'a str,
    /// The longer text.
    pub description: Option<&'a str>,
}

/// The name of the event that carries notices.
pub fn channel() -> (name: &'static str)
    ensures
        name@ == "toaster"@,
{
    "toaster"
}

/// A notice of something worth knowing.
pub fn info<'a>(title: &'a str, description: Option<&'a str>) -> (e: ToasterEvent<'a>)
    ensures
        e.level == Level::Info,
        e.title == title,
        e.description == description,
{
    ToasterEvent { level: Level::Info, title, description }
}

/// A notice of something that may need attention.
pub fn warning<'a>(title: &'a str, description: Option<&'a str>) -> (e: ToasterEvent<'a>)
    ensures
        e.level == Level::Warning,
        e.title == title,
        e.description == description,
{
    ToasterEvent { level: Level::Warning, title, description }
}

/// A notice of something that went wrong.
pub fn error<'a>(title: &'a str, description: Option<&'a str>) -> (e: ToasterEvent<'a>)
    ensures
        e.level == Level::Error,
        e.title == title,
        e.description == description,
{
    ToasterEvent { level: Level::Error, title, description }
}

/// A notice of something that went well.
pub fn success<'a>(title: &'a str, description: Option<&'a str>) -> (e: ToasterEvent<'a>)
    ensures
        e.level == Level::Success,
        e.title == title,
        e.description == description,
{
    ToasterEvent { level: Level::Success, title, description }
}

} // verus!
