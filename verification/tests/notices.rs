use note_secretary::emitter::toaster;
use note_secretary::emitter::toaster::Level;

#[test]
fn each_notice_has_its_level() {
    assert_eq!(toaster::info("t", None).level, Level::Info);
    assert_eq!(toaster::warning("t", None).level, Level::Warning);
    assert_eq!(toaster::error("t", None).level, Level::Error);
    assert_eq!(toaster::success("t", None).level, Level::Success);
}

#[test]
fn notice_keeps_title_and_description() {
    let e = toaster::warning("disk", Some("almost full"));
    assert_eq!(e.title, "disk");
    assert_eq!(e.description, Some("almost full"));
    let e = toaster::info("saved", None);
    assert_eq!(e.title, "saved");
    assert_eq!(e.description, None);
}

#[test]
fn levels_have_their_words() {
    assert_eq!(Level::Info.name(), "info");
    assert_eq!(Level::Warning.name(), "warning");
    assert_eq!(Level::Error.name(), "error");
    assert_eq!(Level::Success.name(), "success");
    assert_eq!(toaster::channel(), "toaster");
}
