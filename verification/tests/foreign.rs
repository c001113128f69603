use note_secretary::codec::merge;
use note_secretary::files::chat_files::ChatFile;
use note_secretary::files::chat_messages::ChatMessage;
use note_secretary::codec;
use note_secretary::codec::Verdict;
use note_secretary::codec::WriteOutcome;
use note_secretary::error::Error;
use note_secretary::codec::slot::Slot;
use note_secretary::outside::archive::Fault;
use note_secretary::codec::slot::Updates;
use std::io::Cursor;
use std::io::Write;
use zip::write::SimpleFileOptions;
use zip::CompressionMethod;
use zip::ZipWriter;

const KEY: &str = "correct horse battery staple";

fn plain_archive(entries: &[(&str, &[u8])], comment: &str) -> Vec<u8> {
    let mut w = ZipWriter::new(Cursor::new(Vec::new()));
    let options = SimpleFileOptions::default().compression_method(CompressionMethod::Stored);
    for (name, data) in entries {
        w.start_file(*name, options).unwrap();
        w.write_all(data).unwrap();
    }
    w.set_comment(comment);
    w.finish().unwrap().into_inner()
}

fn updates(
    message: Option<&[u8]>,
    meta: Option<&[u8]>,
    summary: Option<&[u8]>,
    data: Option<&[u8]>,
) -> Updates {
    Updates {
        message: message.map(|b| b.to_vec()),
        meta: meta.map(|b| b.to_vec()),
        summary: summary.map(|b| b.to_vec()),
        data: data.map(|b| b.to_vec()),
    }
}

#[test]
fn short_entry_that_is_not_sealed_reads_as_it_is() {
    let bytes = plain_archive(&[("message.json", b"1")], "m1");
    assert_eq!(ChatMessage::read_one(&bytes, KEY), Ok(b"1".to_vec()));
    assert_eq!(codec::read(Some(&bytes), Slot::Message, "any key"), Ok(b"1".to_vec()));
    assert_eq!(codec::read_tag(Some(&bytes)).unwrap(), b"m1".to_vec());
    assert_eq!(codec::read_sealed(Some(&bytes), Slot::Message).unwrap(), b"1".to_vec());
}

#[test]
fn entry_that_is_not_sealed_opens_under_any_key() {
    let text = b"\"a text of more than twenty-eight bytes\"";
    let bytes = plain_archive(&[("message.json", text)], "m1");
    assert_eq!(ChatMessage::read_one(&bytes, KEY).unwrap(), text.to_vec());
    assert_eq!(ChatMessage::read_one(&bytes, "x").unwrap(), text.to_vec());
}

#[test]
fn empty_archive_has_no_slots() {
    let bytes = plain_archive(&[], "");
    assert_eq!(codec::read(Some(&bytes), Slot::Message, KEY), Err(Error::NotFound));
    assert_eq!(codec::read_sealed(Some(&bytes), Slot::Data), Err(Error::NotFound));
    assert_eq!(codec::read_tag(Some(&bytes)).unwrap(), Vec::<u8>::new());
}

#[test]
fn foreign_tag_is_held_against_the_identity() {
    let bytes = plain_archive(&[], "m1");
    let m = ChatMessage {
        chat_id: "c".to_string(),
        index: 1,
        message_id: "m1".to_string(),
        message: Some(b"1".to_vec()),
        force: None,
    };
    assert_eq!(m.clone().save(Some(&bytes), KEY), Ok(None));
    let mut other = m;
    other.message_id = "m2".to_string();
    assert_eq!(other.save(Some(&bytes), KEY), Err(Error::Conflict));
}

#[test]
fn merge_drops_what_is_no_attachment_slot() {
    let old = plain_archive(
        &[("notes.txt", b"x"), ("summary.txt", b"kept as it is"), ("message.json", b"1")],
        "",
    );
    let file = ChatFile {
        chat_id: "c".to_string(),
        file_id: "f".to_string(),
        media_type: "text/plain".to_string(),
        filename: None,
        summary: Some("new".to_string()),
        data: None,
    };
    let bytes = file.save(Some(&old), None, KEY).unwrap();
    assert_eq!(
        codec::read_sealed(Some(&bytes), Slot::Summary).unwrap(),
        b"kept as it is".to_vec()
    );
    assert_eq!(codec::read_sealed(Some(&bytes), Slot::Message), Err(Error::NotFound));
    assert!(codec::read(Some(&bytes), Slot::Meta, KEY).is_ok());
    let archive = zip::ZipArchive::new(Cursor::new(bytes)).unwrap();
    let mut names: Vec<&str> = archive.file_names().collect();
    names.sort();
    assert_eq!(names, vec!["meta.json", "summary.txt"]);
}

#[test]
fn write_skips_on_the_same_tag() {
    let first = match codec::write(None, &updates(Some(b"1"), None, None, None), Some("t"), false, KEY)
    {
        Ok(WriteOutcome::Written(b)) => b,
        other => panic!("{:?}", other),
    };
    let again = codec::write(
        Some(&first),
        &updates(Some(b"2"), None, None, None),
        Some("t"),
        false,
        KEY,
    );
    assert!(matches!(again, Ok(WriteOutcome::Skipped)));
    let clash = codec::write(
        Some(&first),
        &updates(Some(b"2"), None, None, None),
        Some("u"),
        false,
        KEY,
    );
    assert!(matches!(clash, Err(Error::Conflict)));
}

#[test]
fn write_without_tag_merges_even_without_force() {
    let first = match codec::write(None, &updates(None, Some(b"m"), None, None), None, false, KEY) {
        Ok(WriteOutcome::Written(b)) => b,
        other => panic!("{:?}", other),
    };
    let sealed = codec::read_sealed(Some(&first), Slot::Meta).unwrap();
    let second = match codec::write(
        Some(&first),
        &updates(None, None, None, Some(b"d")),
        None,
        false,
        KEY,
    ) {
        Ok(WriteOutcome::Written(b)) => b,
        other => panic!("{:?}", other),
    };
    assert_eq!(codec::read_sealed(Some(&second), Slot::Meta).unwrap(), sealed);
    assert_eq!(codec::read(Some(&second), Slot::Data, KEY).unwrap(), b"d".to_vec());
    let junk = b"junk".to_vec();
    let out = codec::write(Some(&junk), &updates(None, None, None, Some(b"d")), None, true, KEY);
    assert!(matches!(out, Err(Error::Corrupt)));
}

#[test]
fn update_replaces_a_slot_in_a_merge() {
    let first = merge::build(None, &updates(None, Some(b"one"), Some(b"s"), None), None, KEY).unwrap();
    let second =
        merge::build(Some(&first), &updates(None, Some(b"two"), None, None), None, KEY).unwrap();
    assert_eq!(codec::read(Some(&second), Slot::Meta, KEY).unwrap(), b"two".to_vec());
    assert_eq!(codec::read(Some(&second), Slot::Summary, KEY).unwrap(), b"s".to_vec());
}

#[test]
fn tagged_write_replaces_the_container_whole() {
    let first = merge::build(None, &updates(None, Some(b"one"), None, None), None, KEY).unwrap();
    let second =
        merge::build(Some(&first), &updates(Some(b"1"), None, None, None), Some("t"), KEY).unwrap();
    assert_eq!(codec::read(Some(&second), Slot::Meta, KEY), Err(Error::NotFound));
    assert_eq!(codec::read(Some(&second), Slot::Message, KEY).unwrap(), b"1".to_vec());
    assert_eq!(codec::read_tag(Some(&second)).unwrap(), b"t".to_vec());
}

#[test]
fn write_of_nothing_is_an_empty_container() {
    let bytes = merge::build(None, &Updates::none(), None, KEY).unwrap();
    assert_eq!(codec::read_tag(Some(&bytes)).unwrap(), Vec::<u8>::new());
    for s in [Slot::Message, Slot::Meta, Slot::Summary, Slot::Data] {
        assert_eq!(codec::read(Some(&bytes), s, KEY), Err(Error::NotFound));
    }
}

#[test]
fn verdicts() {
    assert_eq!(codec::check(None, Some("t"), false), Ok(Verdict::Proceed));
    assert_eq!(codec::check(Some(b"junk"), Some("t"), true), Ok(Verdict::Proceed));
    assert_eq!(codec::check(Some(b"junk"), Some("t"), false), Err(Error::Corrupt));
    assert_eq!(codec::check(Some(b"junk"), None, false), Err(Error::Corrupt));
    let bytes = plain_archive(&[], "t");
    assert_eq!(codec::check(Some(&bytes), Some("t"), false), Ok(Verdict::Skip));
    assert_eq!(codec::check(Some(&bytes), Some(""), false), Err(Error::Conflict));
    assert_eq!(codec::check(Some(&bytes), None, false), Ok(Verdict::Proceed));
    let untagged = plain_archive(&[], "");
    assert_eq!(codec::check(Some(&untagged), Some(""), false), Ok(Verdict::Skip));
}

#[test]
fn slots_have_their_entry_names() {
    assert_eq!(Slot::Message.name(), "message.json");
    assert_eq!(Slot::Meta.name(), "meta.json");
    assert_eq!(Slot::Summary.name(), "summary.txt");
    assert_eq!(Slot::Data.name(), "data");
    for s in [Slot::Message, Slot::Meta, Slot::Summary, Slot::Data] {
        assert_eq!(Slot::from_name(s.name()), Some(s));
    }
    assert_eq!(Slot::from_name("Data"), None);
    assert_eq!(Slot::from_name(""), None);
    assert_eq!(Slot::from_name("data.bin"), None);
}

#[test]
fn tag_that_looks_like_an_archive_end_is_caught() {
    // The tag is stored as the archive's comment, at the very end of the
    // bytes. A tag that itself reads as the end of an empty archive makes the
    // container open as that empty archive, so it is not handed out.
    let mut tag = String::from("PK\u{5}\u{6}");
    for _ in 0..18 {
        tag.push('\u{0}');
    }
    let out = merge::build(None, &updates(Some(b"1"), None, None, None), Some(&tag), KEY);
    assert_eq!(out, Err(Error::Corrupt));
}

#[test]
fn faults_have_their_errors() {
    let all = [
        Fault::Io,
        Fault::Invalid,
        Fault::Unsupported,
        Fault::Missing,
        Fault::Password,
        Fault::Other,
    ];
    for f in all {
        let on_read = codec::failure_on_read(f);
        let on_write = merge::failure_on_write(f);
        match f {
            Fault::Io => {
                assert_eq!(on_read, Error::DecryptFailed);
                assert_eq!(on_write, Error::Io);
            }
            Fault::Password => {
                assert_eq!(on_read, Error::DecryptFailed);
                assert_eq!(on_write, Error::Corrupt);
            }
            _ => {
                assert_eq!(on_read, Error::Corrupt);
                assert_eq!(on_write, Error::Corrupt);
            }
        }
    }
}

#[test]
fn written_slots_are_sealed_and_stored() {
    let file = ChatFile {
        chat_id: "c".to_string(),
        file_id: "f".to_string(),
        media_type: "text/plain".to_string(),
        filename: None,
        summary: Some("s".to_string()),
        data: None,
    };
    let bytes = file.save(None, Some(vec![7; 1000]), KEY).unwrap();
    let mut archive = zip::ZipArchive::new(Cursor::new(bytes)).unwrap();
    assert_eq!(archive.len(), 3);
    for i in 0..archive.len() {
        let mode = archive.get_aes_verification_key_and_salt(i).unwrap().unwrap().aes_mode;
        assert_eq!(mode, zip::AesMode::Aes256);
        let entry = archive.by_index_raw(i).unwrap();
        assert!(entry.encrypted());
        assert_eq!(entry.compression(), CompressionMethod::Stored);
    }
}

#[test]
fn accept_takes_what_build_made() {
    let u = updates(Some(b"1"), None, None, None);
    let made = merge::build(None, &u, Some("t"), KEY).unwrap();
    assert_eq!(merge::accept(None, &u, Some("t"), KEY, &made), Ok(()));
    let old = b"whatever was there".to_vec();
    assert_eq!(merge::accept(Some(&old), &u, Some("t"), KEY, &made), Ok(()));
}

#[test]
fn accept_refuses_what_was_not_asked_for() {
    let u = updates(Some(b"1"), None, None, None);
    let made = merge::build(None, &u, Some("t"), KEY).unwrap();
    let refused = Err(Error::Corrupt);
    assert_eq!(merge::accept(None, &u, Some("t"), "another key", &made), refused);
    assert_eq!(merge::accept(None, &u, Some("u"), KEY, &made), refused);
    assert_eq!(merge::accept(None, &u, None, KEY, &made), refused);
    let other = updates(Some(b"2"), None, None, None);
    assert_eq!(merge::accept(None, &other, Some("t"), KEY, &made), refused);
    let more = updates(Some(b"1"), Some(b"m"), None, None);
    assert_eq!(merge::accept(None, &more, Some("t"), KEY, &made), refused);
    let less = Updates::none();
    assert_eq!(merge::accept(None, &less, Some("t"), KEY, &made), refused);
    let elsewhere = updates(None, None, None, Some(b"1"));
    assert_eq!(merge::accept(None, &elsewhere, Some("t"), KEY, &made), refused);
    assert_eq!(merge::accept(None, &u, Some("t"), KEY, b"junk"), refused);
    assert_eq!(merge::accept(None, &u, Some("t"), KEY, b""), refused);
}

#[test]
fn accept_refuses_a_slot_that_is_not_sealed() {
    let text = b"\"a text of more than twenty-eight bytes\"";
    let plain = plain_archive(&[("message.json", text)], "t");
    let u = updates(Some(text), None, None, None);
    assert_eq!(codec::read(Some(&plain), Slot::Message, KEY), Ok(text.to_vec()));
    assert_eq!(merge::accept(None, &u, Some("t"), KEY, &plain), Err(Error::Corrupt));
}

#[test]
fn accept_holds_a_merge_against_the_old_container() {
    let first = merge::build(None, &updates(None, Some(b"m"), Some(b"s"), None), None, KEY).unwrap();
    let add = updates(None, None, None, Some(b"d"));
    let second = merge::build(Some(&first), &add, None, KEY).unwrap();
    assert_eq!(merge::accept(Some(&first), &add, None, KEY, &second), Ok(()));
    // the same slots, sealed anew, are another container's
    let twin = merge::build(None, &updates(None, Some(b"m"), Some(b"s"), None), None, KEY).unwrap();
    assert_eq!(merge::accept(Some(&twin), &add, None, KEY, &second), Err(Error::Corrupt));
    // without the old container there is nothing to carry over
    assert_eq!(merge::accept(None, &add, None, KEY, &second), Err(Error::Corrupt));
    // an old container that does not open
    assert_eq!(merge::accept(Some(b"junk"), &add, None, KEY, &second), Err(Error::Corrupt));
    // what was in the updates is not carried over
    let all = updates(None, Some(b"m"), Some(b"s"), Some(b"d"));
    assert_eq!(merge::accept(Some(&first), &all, None, KEY, &second), Ok(()));
    let third = merge::build(Some(&first), &all, None, KEY).unwrap();
    assert_eq!(merge::accept(Some(&first), &add, None, KEY, &third), Err(Error::Corrupt));
}

#[test]
fn carried_slots_keep_their_seal() {
    let first = merge::build(None, &updates(None, Some(b"m"), Some(b"s"), None), None, KEY).unwrap();
    let second =
        merge::build(Some(&first), &updates(None, None, None, Some(b"d")), None, KEY).unwrap();
    let mut archive = zip::ZipArchive::new(Cursor::new(second)).unwrap();
    assert_eq!(archive.len(), 3);
    for i in 0..archive.len() {
        let mode = archive.get_aes_verification_key_and_salt(i).unwrap().unwrap().aes_mode;
        assert_eq!(mode, zip::AesMode::Aes256);
        let entry = archive.by_index_raw(i).unwrap();
        assert!(entry.encrypted());
        assert_eq!(entry.compression(), CompressionMethod::Stored);
    }
}

#[test]
fn sealing_is_with_a_key_of_256_bits_and_stored() {
    assert_eq!(codec::KEY_BITS, 256);
    assert!(codec::STORED);
}
