use note_secretary::files::chat_files::ChatFile;
use note_secretary::files::chat_files::ChatFileData;
use note_secretary::files::chat_files::Fetch;
use note_secretary::codec;
use note_secretary::error::Error;
use note_secretary::codec::slot::Slot;

const KEY: &str = "correct horse battery staple";

fn attachment(media_type: &str, filename: Option<&str>, summary: Option<&str>) -> ChatFile {
    ChatFile {
        chat_id: "c1".to_string(),
        file_id: "f1".to_string(),
        media_type: media_type.to_string(),
        filename: filename.map(|s| s.to_string()),
        summary: summary.map(|s| s.to_string()),
        data: None,
    }
}

#[test]
fn first_save_fills_what_it_has() {
    let bytes = attachment("image/png", None, Some("a cat"))
        .save(None, Some(vec![1, 2, 3]), KEY)
        .unwrap();
    assert_eq!(
        ChatFile::read(Some(&bytes), Slot::Meta, KEY).unwrap(),
        b"{\"media_type\":\"image/png\",\"filename\":\"data.png\"}".to_vec()
    );
    assert_eq!(ChatFile::read(Some(&bytes), Slot::Summary, KEY).unwrap(), b"a cat".to_vec());
    assert_eq!(ChatFile::read(Some(&bytes), Slot::Data, KEY).unwrap(), vec![1, 2, 3]);
    assert_eq!(codec::read_tag(Some(&bytes)).unwrap(), Vec::<u8>::new());
}

#[test]
fn meta_alone_where_nothing_else_is_given() {
    let bytes = attachment("text/plain", Some("notes.txt"), None).save(None, None, KEY).unwrap();
    assert_eq!(
        ChatFile::read(Some(&bytes), Slot::Meta, KEY).unwrap(),
        b"{\"media_type\":\"text/plain\",\"filename\":\"notes.txt\"}".to_vec()
    );
    assert_eq!(ChatFile::read(Some(&bytes), Slot::Summary, KEY), Err(Error::NotFound));
    assert_eq!(ChatFile::read(Some(&bytes), Slot::Data, KEY), Err(Error::NotFound));
    assert_eq!(ChatFile::read(Some(&bytes), Slot::Message, KEY), Err(Error::NotFound));
}

#[test]
fn merge_keeps_sealed_bytes() {
    let first = attachment("image/png", None, Some("a cat")).save(None, None, KEY).unwrap();
    let meta = codec::read_sealed(Some(&first), Slot::Meta).unwrap();
    let summary = codec::read_sealed(Some(&first), Slot::Summary).unwrap();
    assert_eq!(codec::read_sealed(Some(&first), Slot::Data), Err(Error::NotFound));

    let second = attachment("image/png", None, None)
        .save(Some(&first), Some(vec![9; 100]), KEY)
        .unwrap();
    assert_eq!(codec::read_sealed(Some(&second), Slot::Meta).unwrap(), meta);
    assert_eq!(codec::read_sealed(Some(&second), Slot::Summary).unwrap(), summary);
    assert_eq!(ChatFile::read(Some(&second), Slot::Data, KEY).unwrap(), vec![9; 100]);
    assert_eq!(ChatFile::read(Some(&second), Slot::Summary, KEY).unwrap(), b"a cat".to_vec());
}

#[test]
fn summary_is_filled_once() {
    let first = attachment("text/plain", None, Some("A")).save(None, None, KEY).unwrap();
    let second = attachment("text/plain", None, Some("B")).save(Some(&first), None, KEY).unwrap();
    assert_eq!(ChatFile::read(Some(&second), Slot::Summary, KEY).unwrap(), b"A".to_vec());
}

#[test]
fn data_and_meta_are_filled_once() {
    let first = attachment("image/png", Some("one.png"), None)
        .save(None, Some(b"first".to_vec()), KEY)
        .unwrap();
    let second = attachment("image/jpeg", Some("two.jpg"), Some("late"))
        .save(Some(&first), Some(b"second".to_vec()), KEY)
        .unwrap();
    assert_eq!(ChatFile::read(Some(&second), Slot::Data, KEY).unwrap(), b"first".to_vec());
    assert_eq!(
        ChatFile::read(Some(&second), Slot::Meta, KEY).unwrap(),
        b"{\"media_type\":\"image/png\",\"filename\":\"one.png\"}".to_vec()
    );
    assert_eq!(ChatFile::read(Some(&second), Slot::Summary, KEY).unwrap(), b"late".to_vec());
}

#[test]
fn attachment_round_trip() {
    let data: Vec<u8> = (0..=255u8).cycle().take(70_000).collect();
    let summary = "r\u{e9}sum\u{e9} \u{2014} \u{6458}\u{8981}";
    let bytes = attachment("application/octet-stream", Some("blob.bin"), Some(summary))
        .save(None, Some(data.clone()), KEY)
        .unwrap();
    assert_eq!(ChatFile::read(Some(&bytes), Slot::Data, KEY).unwrap(), data);
    assert_eq!(
        ChatFile::read(Some(&bytes), Slot::Summary, KEY).unwrap(),
        summary.as_bytes().to_vec()
    );
}

#[test]
fn empty_data_round_trip() {
    let bytes = attachment("text/plain", None, Some("")).save(None, Some(vec![]), KEY).unwrap();
    assert_eq!(ChatFile::read(Some(&bytes), Slot::Data, KEY).unwrap(), Vec::<u8>::new());
    assert_eq!(ChatFile::read(Some(&bytes), Slot::Summary, KEY).unwrap(), Vec::<u8>::new());
}

#[test]
fn unreadable_container_fails_the_save() {
    let junk = b"junk".to_vec();
    let out = attachment("text/plain", None, None).save(Some(&junk), None, KEY);
    assert_eq!(out, Err(Error::Corrupt));
}

#[test]
fn reading_without_a_container_is_not_found() {
    assert_eq!(ChatFile::read(None, Slot::Data, KEY), Err(Error::NotFound));
    assert_eq!(ChatFile::read(Some(b"junk"), Slot::Data, KEY), Err(Error::Corrupt));
}

#[test]
fn wrong_key_does_not_open_an_attachment() {
    let bytes = attachment("text/plain", None, Some("A")).save(None, None, KEY).unwrap();
    assert_eq!(
        ChatFile::read(Some(&bytes), Slot::Summary, "not the key"),
        Err(Error::DecryptFailed)
    );
}

#[test]
fn file_name_is_given_or_guessed() {
    assert_eq!(
        attachment("image/png", Some("cat.png"), None).filename(),
        Some("cat.png".to_string())
    );
    assert_eq!(attachment("image/png", None, None).filename(), Some("data.png".to_string()));
    assert_eq!(attachment("IMAGE/PNG; q=1", None, None).filename(), Some("data.png".to_string()));
    assert_eq!(attachment("no/such-type-at-all", None, None).filename(), None);
    assert_eq!(attachment("not a type", None, None).filename(), None);
    assert_eq!(attachment("", None, None).filename(), None);
}

#[test]
fn unknown_type_gets_the_placeholder_name() {
    let text = attachment("no/such-type-at-all", None, None).meta();
    assert_eq!(
        text,
        b"{\"media_type\":\"no/such-type-at-all\",\"filename\":\"unknown\"}".to_vec()
    );
}

#[test]
fn meta_escapes_its_strings() {
    let text = attachment("text/\"x\"", Some("a\\b\n.txt"), None).meta();
    assert_eq!(
        String::from_utf8(text.clone()).unwrap(),
        "{\"media_type\":\"text/\\\"x\\\"\",\"filename\":\"a\\\\b\\n.txt\"}"
    );
    let value: serde_json::Value = serde_json::from_slice(&text).unwrap();
    assert_eq!(value.get("media_type").and_then(|v| v.as_str()), Some("text/\"x\""));
    assert_eq!(value.get("filename").and_then(|v| v.as_str()), Some("a\\b\n.txt"));
}

#[test]
fn data_url_is_decoded_on_the_spot() {
    let source = ChatFileData::Url("data:,Hello%20World!".to_string());
    match source.to_data() {
        Ok(Fetch::Ready(body)) => assert_eq!(body, b"Hello World!".to_vec()),
        other => panic!("{:?}", other),
    }
    let source = ChatFileData::Url("data:text/plain;base64,SGk=".to_string());
    match source.to_data() {
        Ok(Fetch::Ready(body)) => assert_eq!(body, b"Hi".to_vec()),
        other => panic!("{:?}", other),
    }
}

#[test]
fn malformed_data_url_is_a_decode_error() {
    let source = ChatFileData::Url("data:no comma here".to_string());
    assert!(matches!(source.to_data(), Err(Error::Decode)));
    let source = ChatFileData::Url("data:;base64,@@@".to_string());
    assert!(matches!(source.to_data(), Err(Error::Decode)));
}

#[test]
fn other_sources_are_left_to_the_caller() {
    match ChatFileData::Url("https://example.org/a.png".to_string()).to_data() {
        Ok(Fetch::Remote(url)) => assert_eq!(url, "https://example.org/a.png"),
        other => panic!("{:?}", other),
    }
    match ChatFileData::Url("DATA:,x".to_string()).to_data() {
        Ok(Fetch::Remote(url)) => assert_eq!(url, "DATA:,x"),
        other => panic!("{:?}", other),
    }
    match ChatFileData::Path("/tmp/a.png".to_string()).to_data() {
        Ok(Fetch::Local(path)) => assert_eq!(path, "/tmp/a.png"),
        other => panic!("{:?}", other),
    }
    match ChatFileData::RefId("note-1".to_string()).to_data() {
        Ok(Fetch::Note(id)) => assert_eq!(id, "note-1"),
        other => panic!("{:?}", other),
    }
}
