use note_secretary::error::Error;
use note_secretary::uri_scheme;
use note_secretary::uri_scheme::image;
use note_secretary::uri_scheme::Failure;
use note_secretary::uri_scheme::image::QueryImageType;
use note_secretary::uri_scheme::streamdown::alias_of;
use note_secretary::uri_scheme::streamdown::content_type;
use note_secretary::uri_scheme::streamdown::find_alias_path;
use note_secretary::uri_scheme::streamdown::find_pattern;
use note_secretary::uri_scheme::streamdown::parse_url_path;
use note_secretary::uri_scheme::streamdown::resource_path;
use note_secretary::uri_scheme::streamdown::split_path;

fn strings(parts: &[&str]) -> Vec<String> {
    parts.iter().map(|s| s.to_string()).collect()
}

#[test]
fn url_paths_lose_their_version() {
    assert_eq!(
        parse_url_path(&strings(&["shiki", "1.0.0", "langs", "rust.mjs"])),
        Ok(strings(&["shiki-langs", "rust.mjs"]))
    );
    assert_eq!(
        parse_url_path(&strings(&["mermaid", "11", "chunks", "mermaid.core", "a", "b.mjs"])),
        Ok(strings(&["mermaid-chunks", "a", "b.mjs"]))
    );
    assert_eq!(
        parse_url_path(&strings(&["mermaid", "11", "dist", "mermaid.mjs"])),
        Ok(strings(&["mermaid", "dist", "mermaid.mjs"]))
    );
    assert_eq!(
        parse_url_path(&strings(&["katex", "0.16", "fonts", "KaTeX_Main.woff2"])),
        Ok(strings(&["katex-fonts", "KaTeX_Main.woff2"]))
    );
    assert_eq!(
        parse_url_path(&strings(&["katex", "0.16", "katex.min.css"])),
        Ok(strings(&["katex", "katex.min.css"]))
    );
}

#[test]
fn url_paths_at_their_shortest() {
    assert_eq!(parse_url_path(&strings(&["shiki", "1", "langs"])), Ok(strings(&["shiki-langs"])));
    assert_eq!(
        parse_url_path(&strings(&["mermaid", "1", "chunks"])),
        Ok(strings(&["mermaid", "chunks"]))
    );
    assert_eq!(
        parse_url_path(&strings(&["mermaid", "1", "chunks", "x"])),
        Ok(strings(&["mermaid-chunks"]))
    );
    assert_eq!(parse_url_path(&strings(&["mermaid", "1"])), Ok(strings(&["mermaid"])));
    assert_eq!(parse_url_path(&strings(&["katex", "1"])), Ok(strings(&["katex"])));
    assert_eq!(
        parse_url_path(&strings(&["katex", "1", "fonts"])),
        Ok(strings(&["katex-fonts"]))
    );
}

#[test]
fn other_url_paths_are_not_found() {
    assert_eq!(parse_url_path(&strings(&[])), Err(Error::NotFound));
    assert_eq!(parse_url_path(&strings(&["shiki"])), Err(Error::NotFound));
    assert_eq!(parse_url_path(&strings(&["shiki", "1", "themes", "x"])), Err(Error::NotFound));
    assert_eq!(parse_url_path(&strings(&["mermaid"])), Err(Error::NotFound));
    assert_eq!(parse_url_path(&strings(&["katex"])), Err(Error::NotFound));
    assert_eq!(parse_url_path(&strings(&["Katex", "1", "x"])), Err(Error::NotFound));
    assert_eq!(parse_url_path(&strings(&["other", "1", "x"])), Err(Error::NotFound));
}

#[test]
fn paths_are_split_at_slashes() {
    assert_eq!(split_path("/a/b/c"), strings(&["a", "b", "c"]));
    assert_eq!(split_path("a//b/"), strings(&["a", "b"]));
    assert_eq!(split_path(""), strings(&[]));
    assert_eq!(split_path("///"), strings(&[]));
    assert_eq!(split_path("one"), strings(&["one"]));
    assert_eq!(split_path("/\u{e9}t\u{e9}/\u{4f60}\u{597d}"), strings(&["\u{e9}t\u{e9}", "\u{4f60}\u{597d}"]));
    for s in ["/a/b", "x", "//", "a/", "/shiki/1/langs/rust.mjs"] {
        let want: Vec<String> =
            s.split('/').filter(|p| !p.is_empty()).map(|p| p.to_string()).collect();
        assert_eq!(split_path(s), want);
    }
}

#[test]
fn request_paths_are_decoded_first() {
    assert_eq!(
        resource_path(b"/shiki/1.0.0/langs/c%2B%2B.mjs"),
        Ok(strings(&["shiki-langs", "c++.mjs"]))
    );
    assert_eq!(
        resource_path(b"/katex/0.16/fonts/a%20b.woff2"),
        Ok(strings(&["katex-fonts", "a b.woff2"]))
    );
    assert_eq!(
        resource_path(b"/mermaid/11/chunks%2Fx/y.mjs"),
        Ok(strings(&["mermaid-chunks", "y.mjs"]))
    );
    assert_eq!(resource_path(b"/nothing/here"), Err(Error::NotFound));
    assert_eq!(resource_path(b""), Err(Error::NotFound));
    assert_eq!(
        resource_path(b"/katex/1/%FF.css"),
        Ok(strings(&["katex", "\u{fffd}.css"]))
    );
}

#[test]
fn alias_is_read_between_quotes() {
    assert_eq!(find_alias_path(b" \"./javascript.mjs\";"), Some("javascript.mjs".to_string()));
    assert_eq!(find_alias_path(b" './a/b.mjs';\n"), Some("a/b.mjs".to_string()));
    assert_eq!(find_alias_path(b"'././x.mjs'"), Some("x.mjs".to_string()));
    assert_eq!(find_alias_path(b"'./'"), Some("".to_string()));
    assert_eq!(find_alias_path(b"'./it\"s.mjs' \"./b\""), Some("it\"s.mjs".to_string()));
    assert_eq!(find_alias_path("'./\u{e9}.mjs'".as_bytes()), Some("\u{e9}.mjs".to_string()));
}

#[test]
fn alias_needs_quotes_and_a_relative_path() {
    assert_eq!(find_alias_path(b""), None);
    assert_eq!(find_alias_path(b"no quotes"), None);
    assert_eq!(find_alias_path(b"'"), None);
    assert_eq!(find_alias_path(b"'./open"), None);
    assert_eq!(find_alias_path(b"'./mixed\""), None);
    assert_eq!(find_alias_path(b"'x.mjs'"), None);
    assert_eq!(find_alias_path(b"'../x.mjs'"), None);
    assert_eq!(find_alias_path(b"''"), None);
    assert_eq!(find_alias_path(b"'.'"), None);
    assert_eq!(find_alias_path(b"'./\xff.mjs'"), None);
    assert_eq!(find_alias_path(b"'a' './b.mjs'"), None);
}

#[test]
fn pattern_is_found_at_its_first_place() {
    assert_eq!(find_pattern(b"abcabc", b"bc"), Some(1));
    assert_eq!(find_pattern(b"abcabc", b"abcabc"), Some(0));
    assert_eq!(find_pattern(b"abcabc", b"c"), Some(2));
    assert_eq!(find_pattern(b"abcabc", b""), Some(0));
    assert_eq!(find_pattern(b"", b""), Some(0));
    assert_eq!(find_pattern(b"abcabc", b"cb"), None);
    assert_eq!(find_pattern(b"ab", b"abc"), None);
    assert_eq!(find_pattern(b"aaab", b"aab"), Some(1));
}

#[test]
fn script_that_stands_for_another() {
    assert_eq!(
        alias_of(b"export { default } from \"./javascript.mjs\";\n"),
        Some("javascript.mjs".to_string())
    );
    assert_eq!(
        alias_of(b"// 'x'\nexport { default } from './ts.mjs'"),
        Some("ts.mjs".to_string())
    );
    assert_eq!(alias_of(b"export default { name: './x' }"), None);
    assert_eq!(alias_of(b"export { default } from"), None);
    assert_eq!(alias_of(b"export { default } from 'pkg'"), None);
    assert_eq!(alias_of(b""), None);
}

#[test]
fn resources_have_their_media_type() {
    assert_eq!(content_type("katex/katex.min.css"), "text/css");
    assert_eq!(content_type("katex-fonts/KaTeX_Main.woff2"), "font/woff2");
    assert_eq!(content_type("shiki-langs/rust.unknownext"), "text/javascript");
    assert_eq!(content_type("no_extension"), "text/javascript");
}

#[test]
fn resource_found() {
    let r = uri_scheme::result_to_resp(Ok(("text/css".to_string(), b"a{}".to_vec())));
    assert_eq!(r.status, 200);
    assert!(r.any_origin);
    assert_eq!(r.content_type, Some("text/css".to_string()));
    assert_eq!(r.body, b"a{}".to_vec());
}

#[test]
fn resource_not_found() {
    let r = uri_scheme::result_to_resp(Err(Failure::of(Error::NotFound)));
    assert_eq!(r.status, 404);
    assert!(r.any_origin);
    assert_eq!(r.content_type, None);
    assert_eq!(r.body, Vec::<u8>::new());
}

#[test]
fn resource_failed() {
    for e in [
        Error::Io,
        Error::Corrupt,
        Error::DecryptFailed,
        Error::Conflict,
        Error::Parse,
        Error::Decode,
        Error::NullMessage,
    ] {
        let r = uri_scheme::result_to_resp(Err(Failure::of(e)));
        assert_eq!(r.status, 500);
        assert!(r.any_origin);
        assert_eq!(r.content_type, Some("text/plain".to_string()));
        assert_eq!(r.body, e.message().as_bytes().to_vec());
        assert!(!r.body.is_empty());
    }
}

#[test]
fn failure_in_other_words() {
    let r = uri_scheme::result_to_resp(Err(Failure::Other("disk on fire".to_string())));
    assert_eq!(r.status, 500);
    assert_eq!(r.content_type, Some("text/plain".to_string()));
    assert_eq!(r.body, b"disk on fire".to_vec());
}

#[test]
fn request_paths_as_text() {
    assert_eq!(image::request_path(b"/tmp/a%20b.png"), "/tmp/a b.png");
    assert_eq!(image::request_path(b"/tmp/%E4%BD%A0.png"), "/tmp/\u{4f60}.png");
    assert_eq!(image::request_path(b"/tmp/%zz%4"), "/tmp/%zz%4");
    assert_eq!(image::request_path(b""), "");
}

#[test]
fn image_queries() {
    assert_eq!(image::query_type(Some("type=file")), Some(QueryImageType::File));
    assert_eq!(image::query_type(Some("type=id")), Some(QueryImageType::Id));
    assert_eq!(image::query_type(Some("type=File")), None);
    assert_eq!(image::query_type(Some("type=file&x=1")), None);
    assert_eq!(image::query_type(Some("")), None);
    assert_eq!(image::query_type(None), None);
}

#[test]
fn image_answers() {
    let r = image::image_resp("/tmp/cat.png", vec![1, 2]);
    assert_eq!(r.status, 200);
    assert_eq!(r.content_type, Some("image/png".to_string()));
    assert_eq!(r.body, vec![1, 2]);
    assert_eq!(image::image_type("/tmp/cat"), "image/jpeg");
    assert_eq!(image::image_type("/tmp/cat.JPG"), "image/jpeg");
    assert_eq!(image::image_type("/tmp/cat.gif"), "image/gif");
    let r = image::no_image();
    assert_eq!(r.status, 404);
    assert_eq!(r.content_type, None);
    assert!(r.body.is_empty());
    let r = image::error_to_bytes_resp("disk on fire");
    assert_eq!(r.status, 500);
    assert_eq!(r.content_type, Some("text".to_string()));
    assert_eq!(r.body, b"disk on fire".to_vec());
}

#[test]
fn every_error_has_its_words() {
    let all = [
        Error::Io,
        Error::Corrupt,
        Error::DecryptFailed,
        Error::Conflict,
        Error::NotFound,
        Error::Parse,
        Error::Decode,
        Error::NullMessage,
    ];
    for (i, a) in all.iter().enumerate() {
        for (j, b) in all.iter().enumerate() {
            assert_eq!(a.message() == b.message(), i == j);
        }
    }
}
