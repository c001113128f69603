//! Bundled resources of the renderer, served under their public paths.
//!
//! A request names a resource as the renderer's packages are published:
//! package, version, then the file. The bundle keeps one directory for each
//! package, without versions. A script of the bundle may stand for another:
//! it then holds nothing but `export { default } from` and the quoted path of
//! the script that is meant.

use crate::error::Error;
use crate::outside::mime::mime_of_path;
use crate::outside::mime::type_of_path;
use crate::outside::percent::decode_path;
use crate::outside::percent::percent_decoded;
use crate::outside::utf8::text_of;
use crate::text::same_text;
use crate::text::text_bytes;
use crate::text::texts_of;
use vstd::prelude::*;
use vstd::slice::slice_subrange;
use vstd::string::StrSliceExecFns;
use vstd::utf8::decode_utf8;
use vstd::utf8::valid_utf8;

verus! {

/// The segments of a path, read from the left with the segment that is being
/// read: a `/` ends a segment, and empty segments are dropped.
pub open spec fn split_from(rest: Seq<char>, current: Seq<char>) -> Seq<Seq<char>>
    decreases rest.len(),
{
    let done = if current.len() > 0 {
        seq![current]
    } else {
        Seq::<Seq<char>>::empty()
    };
    if rest.len() == 0 {
        done
    } else if rest[0] == '/' {
        done + split_from(rest.drop_first(), Seq::<char>::empty())
    } else {
        split_from(rest.drop_first(), current.push(rest[0]))
    }
}

/// The segments of a path: what stands between its slashes, without the empty
/// ones.
pub open spec fn segments(path: Seq<char>) -> Seq<Seq<char>> {
    split_from(path, Seq::<char>::empty())
}

/// The place of a resource in the bundle, by the segments of its public
/// path. The second segment is the version and is dropped, as is the fourth
/// under `mermaid/../chunks`. A path of another shape has no place.
pub open spec fn route(parts: Seq<Seq<char>>) -> Option<Seq<Seq<char>>> {
    if parts.len() >= 3 && parts[0] == "shiki"@ && parts[2] == "langs"@ {
        Some(seq!["shiki-langs"@] + parts.skip(3))
    } else if parts.len() >= 4 && parts[0] == "mermaid"@ && parts[2] == "chunks"@ {
        Some(seq!["mermaid-chunks"@] + parts.skip(4))
    } else if parts.len() >= 2 && parts[0] == "mermaid"@ {
        Some(seq!["mermaid"@] + parts.skip(2))
    } else if parts.len() >= 3 && parts[0] == "katex"@ && parts[2] == "fonts"@ {
        Some(seq!["katex-fonts"@] + parts.skip(3))
    } else if parts.len() >= 2 && parts[0] == "katex"@ {
        Some(seq!["katex"@] + parts.skip(2))
    } else {
        None
    }
}

/// A directory of the bundle, followed by the segments of a path from a
/// position on.
fn under(directory: &str, parts: &Vec<String>, from: usize) -> (r: Vec<String>)
    requires
        from <= parts@.len(),
    ensures
        texts_of(r@) == seq![directory@] + texts_of(parts@).skip(from as int),
{
    let mut r: Vec<String> = Vec::new();
    r.push(directory.to_owned());
    let mut i: usize = from;
    while i < parts.len()
        invariant
            from <= i <= parts@.len(),
            r@.len() == 1 + (i - from),
            r@[0]@ == directory@,
            forall|k: int| 0 <= k < i - from ==> (#[trigger] r@[1 + k])@ == parts@[from + k]@,
        decreases parts.len() - i,
    {
        r.push(parts[i].clone());
        i = i + 1;
    }
    proof {
        let want = seq![directory@] + texts_of(parts@).skip(from as int);
        assert(texts_of(r@).len() == want.len());
        assert forall|k: int| 0 <= k < want.len() implies texts_of(r@)[k] == want[k] by {
            if k > 0 {
                assert(r@[1 + (k - 1)]@ == parts@[from + (k - 1)]@);
            }
        }
        assert(texts_of(r@) =~= want);
    }
    r
}

/// Finds the place of a resource in the bundle: the directory and the path
/// below it, segment by segment. `NotFound` where the path has none.
pub fn parse_url_path(parts: &Vec<String>) -> (r: Result<Vec<String>, Error>)
    ensures
        r is Ok <==> route(texts_of(parts@)) is Some,
        r matches Ok(place) ==> route(texts_of(parts@)) == Some(texts_of(place@)),
        r matches Err(e) ==> e == Error::NotFound,
{
    let n = parts.len();
    let ghost all = texts_of(parts@);
    assert(forall|i: int| 0 <= i < n ==> all[i] == #[trigger] parts@[i]@);
    if n >= 3 && same_text(parts[0].as_str(), "shiki") && same_text(parts[2].as_str(), "langs") {
        Ok(under("shiki-langs", parts, 3))
    } else if n >= 4 && same_text(parts[0].as_str(), "mermaid") && same_text(
        parts[2].as_str(),
        "chunks",
    ) {
        Ok(under("mermaid-chunks", parts, 4))
    } else if n >= 2 && same_text(parts[0].as_str(), "mermaid") {
        Ok(under("mermaid", parts, 2))
    } else if n >= 3 && same_text(parts[0].as_str(), "katex") && same_text(
        parts[2].as_str(),
        "fonts",
    ) {
        Ok(under("katex-fonts", parts, 3))
    } else if n >= 2 && same_text(parts[0].as_str(), "katex") {
        Ok(under("katex", parts, 2))
    } else {
        Err(Error::NotFound)
    }
}

/// Cuts a path into its segments.
pub fn split_path(path: &str) -> (parts: Vec<String>)
    ensures
        texts_of(parts@) == segments(path@),
{
    let n = path.unicode_len();
    let mut parts: Vec<String> = Vec::new();
    let mut start: usize = 0;
    let mut i: usize = 0;
    assert(path@.skip(0) == path@);
    assert(path@.subrange(0, 0) == Seq::<char>::empty());
    assert(texts_of(parts@) == Seq::<Seq<char>>::empty());
    while i < n
        invariant
            n == path@.len(),
            start <= i <= n,
            segments(path@) == texts_of(parts@) + split_from(
                path@.skip(i as int),
                path@.subrange(start as int, i as int),
            ),
        decreases n - i,
    {
        let ghost rest = path@.skip(i as int);
        let ghost current = path@.subrange(start as int, i as int);
        let ghost before = texts_of(parts@);
        assert(rest.len() > 0 && rest[0] == path@[i as int]);
        assert(rest.drop_first() == path@.skip(i + 1));
        let c = path.get_char(i);
        if c == '/' {
            if i > start {
                parts.push(path.substring_char(start, i).to_owned());
                assert(texts_of(parts@) =~= before + seq![current]);
            }
            start = i + 1;
            assert(path@.subrange(start as int, i + 1) == Seq::<char>::empty());
            assert(before + (seq![current] + split_from(
                rest.drop_first(),
                Seq::<char>::empty(),
            )) =~= (before + seq![current]) + split_from(rest.drop_first(), Seq::<char>::empty()));
            assert(before + (Seq::<Seq<char>>::empty() + split_from(
                rest.drop_first(),
                Seq::<char>::empty(),
            )) =~= before + split_from(rest.drop_first(), Seq::<char>::empty()));
        } else {
            assert(current.push(rest[0]) == path@.subrange(start as int, i + 1));
        }
        i = i + 1;
    }
    let ghost before = texts_of(parts@);
    let ghost current = path@.subrange(start as int, n as int);
    assert(path@.skip(n as int).len() == 0);
    if n > start {
        parts.push(path.substring_char(start, n).to_owned());
        assert(texts_of(parts@) =~= before + seq![current]);
    } else {
        assert(before + Seq::<Seq<char>>::empty() =~= before);
    }
    parts
}

/// Finds the place in the bundle of the resource that a request path names,
/// as the path comes in: percent-encoded.
pub fn resource_path(raw: &[u8]) -> (r: Result<Vec<String>, Error>)
    ensures
        r is Ok <==> route(segments(percent_decoded(raw@))) is Some,
        r matches Ok(place) ==> route(segments(percent_decoded(raw@))) == Some(texts_of(place@)),
        r matches Err(e) ==> e == Error::NotFound,
{
    let path = decode_path(raw);
    let parts = split_path(path.as_str());
    parse_url_path(&parts)
}

/// The first position, from a start on, at which one of two bytes stands.
pub open spec fn first_of(data: Seq<u8>, from: int, a: u8, b: u8) -> Option<int>
    decreases data.len() - from,
{
    if from < 0 || from >= data.len() {
        None
    } else if data[from] == a || data[from] == b {
        Some(from)
    } else {
        first_of(data, from + 1, a, b)
    }
}

/// A text without every `./` that it begins with.
pub open spec fn without_dots(text: Seq<char>) -> Seq<char>
    decreases text.len(),
{
    if text.len() >= 2 && text[0] == '.' && text[1] == '/' {
        without_dots(text.skip(2))
    } else {
        text
    }
}

/// What stands between two quotes, read as the path of another script: it
/// must be text and begin with `./`, which is then cut off as often as it
/// stands there.
pub open spec fn quoted_alias(inner: Seq<u8>) -> Option<Seq<char>> {
    if valid_utf8(inner) && decode_utf8(inner).len() >= 2 && decode_utf8(inner)[0] == '.'
        && decode_utf8(inner)[1] == '/' {
        Some(without_dots(decode_utf8(inner)))
    } else {
        None
    }
}

/// The script that bytes point to: what stands between the first quote,
/// single or double, and the next quote of the same kind. Without such a
/// pair there is none.
pub open spec fn alias_spec(data: Seq<u8>) -> Option<Seq<char>> {
    match first_of(data, 0, 39, 34) {
        None => None,
        Some(open) => match first_of(data, open + 1, data[open], data[open]) {
            None => None,
            Some(close) => quoted_alias(data.subrange(open + 1, close)),
        },
    }
}

/// Whether a text that was found is the one that is owed.
pub open spec fn same_alias(r: Option<String>, owed: Option<Seq<char>>) -> bool {
    match (r, owed) {
        (Some(t), Some(a)) => t@ == a,
        (None, None) => true,
        _ => false,
    }
}

/// The first position, from a start on, at which one of two bytes stands.
fn find_byte(data: &[u8], from: usize, a: u8, b: u8) -> (r: Option<usize>)
    ensures
        r matches Some(at) ==> from <= at < data@.len() && first_of(data@, from as int, a, b)
            == Some(at as int),
        r is None ==> first_of(data@, from as int, a, b) is None,
{
    let mut i: usize = from;
    while i < data.len()
        invariant
            from <= i,
            first_of(data@, from as int, a, b) == first_of(data@, i as int, a, b),
        decreases data.len() - i,
    {
        if data[i] == a || data[i] == b {
            return Some(i);
        }
        i = i + 1;
    }
    None
}

/// Finds, in what follows `export { default } from`, the script that is
/// meant: its path relative to the directory of the script that points to it.
pub fn find_alias_path(data: &[u8]) -> (r: Option<String>)
    ensures
        same_alias(r, alias_spec(data@)),
{
    let open = match find_byte(data, 0, 39, 34) {
        Some(open) => open,
        None => return None,
    };
    let mark = data[open];
    let close = match find_byte(data, open + 1, mark, mark) {
        Some(close) => close,
        None => return None,
    };
    alias_between(slice_subrange(data, open + 1, close))
}

/// Reads the bytes between two quotes as the path of another script.
fn alias_between(inner: &[u8]) -> (r: Option<String>)
    ensures
        same_alias(r, quoted_alias(inner@)),
{
    let text = match text_of(inner) {
        Some(text) => text,
        None => return None,
    };
    let n = text.unicode_len();
    if n < 2 || text.get_char(0) != '.' || text.get_char(1) != '/' {
        return None;
    }
    let mut k: usize = 0;
    assert(text@.skip(0) == text@);
    while n - k >= 2 && text.get_char(k) == '.' && text.get_char(k + 1) == '/'
        invariant
            n == text@.len(),
            k <= n,
            without_dots(text@) == without_dots(text@.skip(k as int)),
        decreases n - k,
    {
        assert(text@.skip(k as int).skip(2) == text@.skip(k + 2));
        assert(text@.skip(k as int)[0] == text@[k as int]);
        assert(text@.skip(k as int)[1] == text@[k + 1]);
        k = k + 2;
    }
    proof {
        let rest = text@.skip(k as int);
        if rest.len() >= 2 {
            assert(rest[0] == text@[k as int] && rest[1] == text@[k + 1]);
        }
        assert(without_dots(rest) == rest);
        assert(rest == text@.subrange(k as int, n as int));
    }
    Some(text.substring_char(k, n).to_owned())
}

/// Whether a run of bytes stands in another at a position.
pub open spec fn occurs_at(data: Seq<u8>, pattern: Seq<u8>, at: int) -> bool {
    0 <= at && at + pattern.len() <= data.len() && data.subrange(at, at + pattern.len()) == pattern
}

/// The first position, from a start on, at which a run of bytes stands in
/// another.
pub open spec fn first_occurrence(data: Seq<u8>, pattern: Seq<u8>, from: int) -> Option<int>
    decreases data.len() - from + 1,
{
    if from < 0 || from + pattern.len() > data.len() {
        None
    } else if occurs_at(data, pattern, from) {
        Some(from)
    } else {
        first_occurrence(data, pattern, from + 1)
    }
}

/// The first position at which a run of bytes stands in another.
pub fn find_pattern(data: &[u8], pattern: &[u8]) -> (r: Option<usize>)
    ensures
        r matches Some(at) ==> at + pattern@.len() <= data@.len() && first_occurrence(
            data@,
            pattern@,
            0,
        ) == Some(at as int),
        r is None ==> first_occurrence(data@, pattern@, 0) is None,
{
    let m = pattern.len();
    let total = data.len();
    if total < m {
        return None;
    }
    let last = total - m;
    let mut i: usize = 0;
    while i <= last
        invariant
            m == pattern@.len(),
            total == data@.len(),
            last == data@.len() - m,
            i <= last + 1,
            first_occurrence(data@, pattern@, 0) == first_occurrence(data@, pattern@, i as int),
        decreases last + 1 - i,
    {
        let mut k: usize = 0;
        while k < m && data[i + k] == pattern[k]
            invariant
                m == pattern@.len(),
                total == data@.len(),
                last == data@.len() - m,
                i <= last,
                k <= m,
                forall|j: int| 0 <= j < k ==> data@[i + j] == pattern@[j],
            decreases m - k,
        {
            k = k + 1;
        }
        if k == m {
            assert(data@.subrange(i as int, i + m) =~= pattern@);
            return Some(i);
        }
        assert(!occurs_at(data@, pattern@, i as int)) by {
            if occurs_at(data@, pattern@, i as int) {
                assert(data@.subrange(i as int, i + m)[k as int] == data@[i + k]);
            }
        }
        i = i + 1;
    }
    None
}

/// The words that make a script stand for another.
pub open spec fn alias_marker() -> Seq<u8> {
    text_bytes("export { default } from"@)
}

/// The script that a file of the bundle stands for: where the file holds the
/// marker, what is quoted behind its first occurrence; and none where it does
/// not hold it.
pub open spec fn alias_of_spec(file: Seq<u8>) -> Option<Seq<char>> {
    match first_occurrence(file, alias_marker(), 0) {
        Some(at) => alias_spec(file.subrange(at + alias_marker().len(), file.len() as int)),
        None => None,
    }
}

/// Finds the script that a file of the bundle stands for, if it stands for
/// one: its path relative to the file's directory.
pub fn alias_of(file: &[u8]) -> (r: Option<String>)
    ensures
        same_alias(r, alias_of_spec(file@)),
{
    let marker = "export { default } from".as_bytes();
    let total = file.len();
    assert(marker@ == alias_marker());
    match find_pattern(file, marker) {
        Some(at) => find_alias_path(slice_subrange(file, at + marker.len(), total)),
        None => None,
    }
}

/// The media type under which a resource of the bundle is served: the first
/// that is known for its file name, and `text/javascript` where none is.
pub open spec fn content_type_spec(path: Seq<char>) -> Seq<char> {
    match mime_of_path(path) {
        Some(t) => t,
        None => "text/javascript"@,
    }
}

/// The media type under which a resource of the bundle is served.
pub fn content_type(path: &str) -> (r: &'static str)
    ensures
        r@ == content_type_spec(path@),
{
    match type_of_path(path) {
        Some(t) => t,
        None => "text/javascript",
    }
}

} // verus!
