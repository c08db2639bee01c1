//! File URIs and lists of them.

use vstd::prelude::*;

use crate::foreign;
use crate::path;
use crate::text;

verus! {

/// The byte that starts an escape.
pub const PERCENT: u8 = 37;

/// Why a URI is no path.
#[derive(Clone, Copy, Debug, PartialEq, Eq, Structural)]
pub enum UriError {
    NotFileUri,
    RemoteHost,
    BadEscape,
    NulByte,
}

/// The byte that the two characters of an escape stand for, if they are
/// hexadecimal digits.
pub open spec fn escaped_byte(first: u8, second: u8) -> Option<u8> {
    match (foreign::hex_value(first), foreign::hex_value(second)) {
        (Some(high), Some(low)) => Some((high * 16 + low) as u8),
        _ => None,
    }
}

/// A byte string with its escapes resolved, if all of them are escapes.
pub open spec fn unescaped(value: Seq<u8>) -> Option<Seq<u8>>
    decreases value.len(),
{
    if value.len() == 0 {
        Some(Seq::empty())
    } else if value[0] != PERCENT {
        match unescaped(value.skip(1)) {
            Some(rest) => Some(seq![value[0]] + rest),
            None => None,
        }
    } else if value.len() < 3 {
        None
    } else {
        match (escaped_byte(value[1], value[2]), unescaped(value.skip(3))) {
            (Some(byte), Some(rest)) => Some(seq![byte] + rest),
            _ => None,
        }
    }
}

/// Whether a byte stands for itself in a URI: letters, digits and `-_.~/`.
pub open spec fn is_plain(byte: u8) -> bool {
    ||| 48 <= byte <= 57
    ||| 65 <= byte <= 90
    ||| 97 <= byte <= 122
    ||| byte == 45
    ||| byte == 95
    ||| byte == 46
    ||| byte == 126
    ||| byte == 47
}

/// The uppercase hexadecimal digit of a value below sixteen.
pub open spec fn upper_digit(value: int) -> u8 {
    if value < 10 {
        (value + 48) as u8
    } else {
        (value + 55) as u8
    }
}

/// A byte as it is written in a URI.
pub open spec fn escape(byte: u8) -> Seq<u8> {
    if is_plain(byte) {
        seq![byte]
    } else {
        seq![PERCENT, upper_digit(byte as int / 16), upper_digit(byte as int % 16)]
    }
}

/// A path as it is written in a URI.
pub open spec fn escaped(path: Seq<u8>) -> Seq<u8>
    decreases path.len(),
{
    if path.len() == 0 {
        Seq::empty()
    } else {
        escape(path[0]) + escaped(path.skip(1))
    }
}

/// The characters of an ASCII byte string.
pub open spec fn ascii_text(raw: Seq<u8>) -> Seq<char> {
    raw.map_values(|byte: u8| byte as char)
}

/// The URI of a path.
pub open spec fn uri_of(path: Seq<u8>) -> Seq<char> {
    "file://"@ + ascii_text(escaped(path))
}

/// The path that a URI names.
pub open spec fn uri_path(uri: Seq<char>) -> Result<Seq<u8>, UriError> {
    let all = text::bytes_of(text::trimmed(uri));
    let scheme = text::bytes_of("file://"@);
    if !scheme.is_prefix_of(all) {
        Err(UriError::NotFileUri)
    } else {
        let value = all.skip(scheme.len() as int);
        let host = text::bytes_of("localhost"@);
        let path = if host.is_prefix_of(value) {
            value.skip(host.len() as int)
        } else {
            value
        };
        if path.len() == 0 || path[0] != path::SLASH {
            Err(UriError::RemoteHost)
        } else {
            match unescaped(path) {
                None => Err(UriError::BadEscape),
                Some(raw) => if raw.contains(0) {
                    Err(UriError::NulByte)
                } else {
                    Ok(raw)
                },
            }
        }
    }
}

/// Whether a line names a file.
pub open spec fn is_file_uri(line: Seq<char>) -> bool {
    text::bytes_of("file://"@).is_prefix_of(text::bytes_of(line))
}

/// Where the first line of a text ends.
pub open spec fn line_end(list: Seq<char>) -> int
    decreases list.len(),
{
    if list.len() == 0 || list[0] == '\n' {
        0
    } else {
        1 + line_end(list.skip(1))
    }
}

/// The file URIs of a list, one a line. Other lines are comments, or say what
/// was done with the files.
pub open spec fn listed(list: Seq<char>) -> Seq<Seq<char>>
    decreases list.len(),
    when 0 <= line_end(list) <= list.len()
{
    let end = line_end(list);
    let line = text::trimmed(list.take(end));
    let first = if is_file_uri(line) {
        seq![line]
    } else {
        Seq::empty()
    };
    if end < list.len() {
        first + listed(list.skip(end + 1))
    } else {
        first
    }
}

/// The first thing wrong with the first of some URIs, if anything is.
pub open spec fn uris_fault(uris: Seq<Seq<char>>, n: int) -> Option<UriError>
    decreases n,
{
    if n <= 0 {
        None
    } else if uris_fault(uris, n - 1) is Some {
        uris_fault(uris, n - 1)
    } else {
        match uri_path(uris[n - 1]) {
            Ok(_) => None,
            Err(error) => Some(error),
        }
    }
}

/// A line ends within its text.
pub proof fn lemma_line_end(list: Seq<char>)
    ensures
        0 <= line_end(list) <= list.len(),
    decreases list.len(),
{
    if list.len() > 0 && list[0] != '\n' {
        lemma_line_end(list.skip(1));
    }
}

/// The value of a hexadecimal digit.
fn digit_value(byte: u8) -> (value: Option<u8>)
    ensures
        match value {
            Some(value) => foreign::hex_value(byte) == Some(value as int),
            None => foreign::hex_value(byte) is None,
        },
{
    if 48 <= byte && byte <= 57 {
        Some(byte - 48)
    } else if 65 <= byte && byte <= 70 {
        Some(byte - 55)
    } else if 97 <= byte && byte <= 102 {
        Some(byte - 87)
    } else {
        None
    }
}

/// Resolves the escapes of a byte string.
pub fn percent_decode(value: &[u8]) -> (result: Result<Vec<u8>, UriError>)
    ensures
        match result {
            Ok(raw) => unescaped(value@) == Some(raw@),
            Err(error) => unescaped(value@) is None && error == UriError::BadEscape,
        },
{
    let mut decoded: Vec<u8> = Vec::new();
    let mut index: usize = 0;
    proof {
        assert(value@.skip(0) =~= value@);
        if unescaped(value@) is Some {
            assert(decoded@ + unescaped(value@)->0 =~= unescaped(value@)->0);
        }
    }
    while index < value.len()
        invariant
            index <= value@.len(),
            unescaped(value@) is Some <==> unescaped(value@.skip(index as int)) is Some,
            unescaped(value@) is Some ==> unescaped(value@)->0 == decoded@ + unescaped(
                value@.skip(index as int),
            )->0,
        decreases value@.len() - index,
    {
        let ghost before = decoded@;
        let ghost left = value@.skip(index as int);
        assert(left[0] == value@[index as int]);
        if value[index] == PERCENT {
            if value.len() - index < 3 {
                return Err(UriError::BadEscape);
            }
            assert(left[1] == value@[index + 1] && left[2] == value@[index + 2]);
            let byte: u8 = match (digit_value(value[index + 1]), digit_value(value[index + 2])) {
                (Some(high), Some(low)) => high * 16 + low,
                _ => return Err(UriError::BadEscape),
            };
            decoded.push(byte);
            proof {
                assert(left.skip(3) =~= value@.skip(index + 3));
                if unescaped(left) is Some {
                    let rest = unescaped(left.skip(3))->0;
                    assert(before + (seq![byte] + rest) =~= decoded@ + rest);
                }
            }
            index = index + 3;
        } else {
            decoded.push(value[index]);
            proof {
                assert(left.skip(1) =~= value@.skip(index + 1));
                if unescaped(left) is Some {
                    let rest = unescaped(left.skip(1))->0;
                    assert(before + (seq![left[0]] + rest) =~= decoded@ + rest);
                }
            }
            index = index + 1;
        }
    }
    proof {
        assert(value@.skip(index as int) =~= Seq::empty());
        assert(decoded@ + Seq::<u8>::empty() =~= decoded@);
    }
    Ok(decoded)
}

/// The path that a URI names.
pub fn path_from_file_uri(uri: &str) -> (result: Result<Vec<u8>, UriError>)
    ensures
        match result {
            Ok(path) => uri_path(uri@) == Ok::<Seq<u8>, UriError>(path@),
            Err(error) => uri_path(uri@) == Err::<Seq<u8>, UriError>(error),
        },
{
    let trimmed = text::trim(uri);
    let all = trimmed.as_str().as_bytes();
    let scheme = "file://".as_bytes();
    if !text::bytes_start_with(all, scheme) {
        return Err(UriError::NotFileUri);
    }
    let value = path::copy_range(all, scheme.len(), all.len());
    assert(value@ =~= all@.skip(scheme@.len() as int));
    let host = "localhost".as_bytes();
    let from: usize = if text::bytes_start_with(value.as_slice(), host) {
        host.len()
    } else {
        0
    };
    let path = path::copy_range(value.as_slice(), from, value.len());
    assert(path@ =~= value@.skip(from as int));
    assert(value@.skip(0) =~= value@);
    if path.len() == 0 || path[0] != path::SLASH {
        return Err(UriError::RemoteHost);
    }
    let raw = match percent_decode(path.as_slice()) {
        Ok(raw) => raw,
        Err(error) => return Err(error),
    };
    let mut i: usize = 0;
    while i < raw.len()
        invariant
            i <= raw@.len(),
            forall|k: int| 0 <= k < i ==> raw@[k] != 0,
            uri_path(uri@) == if raw@.contains(0) {
                Err::<Seq<u8>, UriError>(UriError::NulByte)
            } else {
                Ok(raw@)
            },
        decreases raw@.len() - i,
    {
        if raw[i] == 0 {
            assert(raw@[i as int] == 0);
            return Err(UriError::NulByte);
        }
        i = i + 1;
    }
    Ok(raw)
}

/// The paths that some URIs name, or what is wrong with the first that names
/// none.
pub fn paths_from_file_uris(uris: &Vec<String>) -> (result: Result<Vec<Vec<u8>>, UriError>)
    ensures
        match result {
            Ok(paths) => {
                &&& paths@.len() == uris@.len()
                &&& forall|i: int|
                    0 <= i < uris@.len() ==> uri_path(uris@[i]@) == Ok::<Seq<u8>, UriError>(
                        (#[trigger] paths@[i])@,
                    )
                &&& uris_fault(uris@.map_values(|uri: String| uri@), uris@.len() as int) is None
            },
            Err(error) => uris_fault(
                uris@.map_values(|uri: String| uri@),
                uris@.len() as int,
            ) == Some(error),
        },
{
    let ghost names = uris@.map_values(|uri: String| uri@);
    let mut paths: Vec<Vec<u8>> = Vec::new();
    let mut i: usize = 0;
    while i < uris.len()
        invariant
            i <= uris@.len(),
            names == uris@.map_values(|uri: String| uri@),
            paths@.len() == i,
            forall|k: int|
                0 <= k < i ==> uri_path(uris@[k]@) == Ok::<Seq<u8>, UriError>(
                    (#[trigger] paths@[k])@,
                ),
            uris_fault(names, i as int) is None,
        decreases uris@.len() - i,
    {
        assert(names[i as int] == uris@[i as int]@);
        match path_from_file_uri(uris[i].as_str()) {
            Ok(path) => {
                paths.push(path);
            },
            Err(error) => {
                proof {
                    lemma_fault_stays(names, i + 1, names.len() as int);
                }
                return Err(error);
            },
        }
        i = i + 1;
    }
    Ok(paths)
}

proof fn lemma_fault_stays(uris: Seq<Seq<char>>, n: int, more: int)
    requires
        0 <= n <= more,
        uris_fault(uris, n) is Some,
    ensures
        uris_fault(uris, more) == uris_fault(uris, n),
    decreases more,
{
    if n < more {
        lemma_fault_stays(uris, n, more - 1);
    }
}

/// The file URIs of a list.
fn list_uris(list: &str) -> (uris: Vec<String>)
    ensures
        uris@.map_values(|uri: String| uri@) == listed(list@),
{
    let chars = text::chars_of(list);
    let mut uris: Vec<String> = Vec::new();
    let mut start: usize = 0;
    let mut done = false;
    proof {
        lemma_line_end(list@);
        assert(list@.skip(0) =~= list@);
        assert(uris@.map_values(|uri: String| uri@) + listed(list@) =~= listed(list@));
    }
    while !done
        invariant
            start <= chars@.len(),
            chars@ == list@,
            done ==> uris@.map_values(|uri: String| uri@) == listed(list@),
            !done ==> uris@.map_values(|uri: String| uri@) + listed(list@.skip(start as int))
                == listed(list@),
        decreases chars@.len() - start + (if done { 0int } else { 1int }),
    {
        let ghost left = list@.skip(start as int);
        let mut end: usize = start;
        proof {
            assert(list@.skip(start as int) =~= left.skip(0));
        }
        while end < chars.len() && chars[end] != '\n'
            invariant
                start <= end <= chars@.len(),
                chars@ == list@,
                left == list@.skip(start as int),
                line_end(left) == end - start + line_end(list@.skip(end as int)),
            decreases chars@.len() - end,
        {
            proof {
                let here = list@.skip(end as int);
                assert(here[0] == list@[end as int]);
                assert(here.skip(1) =~= list@.skip(end + 1));
            }
            end = end + 1;
        }
        proof {
            let here = list@.skip(end as int);
            if end < chars@.len() {
                assert(here[0] == list@[end as int]);
            }
            assert(line_end(left) == end - start);
            lemma_line_end(left);
            assert(left.take(end - start) =~= list@.subrange(start as int, end as int));
            if end < chars@.len() {
                assert(left.skip(end - start + 1) =~= list@.skip(end + 1));
                lemma_line_end(list@.skip(end + 1));
            }
        }
        let line = text::trim(
            text::text_of(
                vstd::slice::slice_subrange(chars.as_slice(), start, end),
            ).as_str(),
        );
        let ghost before = uris@.map_values(|uri: String| uri@);
        let ghost name = line@;
        if text::str_starts_with(line.as_str(), "file://") {
            let ghost earlier = uris@;
            uris.push(line);
            proof {
                assert(uris@.map_values(|uri: String| uri@) =~= earlier.map_values(
                    |uri: String| uri@,
                ).push(name));
            }
        }
        proof {
            let now = uris@.map_values(|uri: String| uri@);
            let first = if is_file_uri(name) {
                seq![name]
            } else {
                Seq::empty()
            };
            assert(now =~= before + first);
            if end < chars@.len() {
                let rest = listed(list@.skip(end + 1));
                assert(listed(left) == first + rest);
                assert(before + (first + rest) =~= now + rest);
            } else {
                assert(listed(left) == first);
                assert(before + first =~= now);
            }
        }
        if end < chars.len() {
            start = end + 1;
        } else {
            done = true;
        }
    }
    uris
}

/// The paths of the files that a list names, or nothing if it names none.
pub fn parse_file_uri_list(list: &str) -> (result: Result<Option<Vec<Vec<u8>>>, UriError>)
    ensures
        match result {
            Ok(None) => listed(list@).len() == 0,
            Ok(Some(paths)) => {
                &&& listed(list@).len() > 0
                &&& paths@.len() == listed(list@).len()
                &&& forall|i: int|
                    0 <= i < paths@.len() ==> uri_path(listed(list@)[i]) == Ok::<
                        Seq<u8>,
                        UriError,
                    >((#[trigger] paths@[i])@)
            },
            Err(error) => uris_fault(listed(list@), listed(list@).len() as int) == Some(error),
        },
{
    let uris = list_uris(list);
    let ghost names = uris@.map_values(|uri: String| uri@);
    assert(names.len() == uris@.len());
    if uris.len() == 0 {
        return Ok(None);
    }
    match paths_from_file_uris(&uris) {
        Ok(paths) => {
            assert forall|i: int| 0 <= i < paths@.len() implies uri_path(listed(list@)[i]) == Ok::<
                Seq<u8>,
                UriError,
            >((#[trigger] paths@[i])@) by {
                assert(names[i] == uris@[i]@);
            }
            Ok(Some(paths))
        },
        Err(error) => Err(error),
    }
}

/// The uppercase hexadecimal digit of a value below sixteen.
fn upper(value: u8) -> (digit: u8)
    requires
        value < 16,
    ensures
        digit == upper_digit(value as int),
        digit < 128,
{
    if value < 10 {
        value + 48
    } else {
        value + 55
    }
}

/// The URI of a path.
pub fn file_uri(path: &[u8]) -> (uri: String)
    ensures
        uri@ == uri_of(path@),
{
    let mut chars: Vec<char> = text::chars_of("file://");
    let ghost head = "file://"@;
    let mut i: usize = 0;
    proof {
        assert(path@.skip(0) =~= path@);
    }
    while i < path.len()
        invariant
            i <= path@.len(),
            chars@ + ascii_text(escaped(path@.skip(i as int))) == head + ascii_text(
                escaped(path@),
            ),
        decreases path@.len() - i,
    {
        let byte: u8 = path[i];
        let ghost before = chars@;
        let ghost left = path@.skip(i as int);
        proof {
            assert(left[0] == byte);
            assert(left.skip(1) =~= path@.skip(i + 1));
        }
        let plain = (48 <= byte && byte <= 57) || (65 <= byte && byte <= 90) || (97 <= byte && byte
            <= 122) || byte == 45 || byte == 95 || byte == 46 || byte == 126 || byte == 47;
        if plain {
            chars.push(byte as char);
        } else {
            chars.push('%');
            chars.push(upper(byte / 16) as char);
            chars.push(upper(byte % 16) as char);
        }
        proof {
            let rest = escaped(path@.skip(i + 1));
            assert(escaped(left) == escape(byte) + rest);
            assert(chars@ =~= before + ascii_text(escape(byte)));
            assert(chars@ + ascii_text(rest) =~= before + ascii_text(escape(byte) + rest));
        }
        i = i + 1;
    }
    proof {
        assert(path@.skip(i as int) =~= Seq::empty());
        assert(chars@ + ascii_text(escaped(Seq::<u8>::empty())) =~= chars@);
    }
    text::text_of(chars.as_slice())
}

/// Texts with a separator between them.
pub open spec fn joined(parts: Seq<Seq<char>>, separator: Seq<char>) -> Seq<char>
    decreases parts.len(),
{
    if parts.len() == 0 {
        Seq::empty()
    } else if parts.len() == 1 {
        parts[0]
    } else {
        joined(parts.drop_last(), separator) + separator + parts.last()
    }
}

/// The URIs of some paths.
pub open spec fn uris_of(paths: Seq<Vec<u8>>) -> Seq<Seq<char>> {
    paths.map_values(|path: Vec<u8>| uri_of(path@))
}

/// The URIs of some paths with a separator between them.
fn join_uris(paths: &Vec<Vec<u8>>, separator: &str) -> (list: String)
    ensures
        list@ == joined(uris_of(paths@), separator@),
{
    let ghost uris = uris_of(paths@);
    let mut list = String::new();
    let mut i: usize = 0;
    proof {
        assert(uris.take(0) =~= Seq::empty());
        assert(list@ =~= Seq::empty());
    }
    while i < paths.len()
        invariant
            i <= paths@.len(),
            uris == uris_of(paths@),
            uris.len() == paths@.len(),
            list@ == joined(uris.take(i as int), separator@),
        decreases paths@.len() - i,
    {
        proof {
            assert(uris.take(i + 1).drop_last() =~= uris.take(i as int));
            assert(uris.take(i + 1).last() == uri_of(paths@[i as int]@));
        }
        if i > 0 {
            list.append(separator);
        }
        list.append(file_uri(paths[i].as_slice()).as_str());
        proof {
            if i == 0 {
                assert(list@ =~= uri_of(paths@[0]@));
            }
        }
        i = i + 1;
    }
    assert(uris.take(i as int) =~= uris);
    list
}

/// The list of copied files that desktops share: a line for each.
pub open spec fn desktop_list(paths: Seq<Vec<u8>>) -> Seq<char> {
    joined(uris_of(paths), "\r\n"@) + "\r\n"@
}

/// The list of copied files as GNOME writes it: what was done with the files, and a
/// line for each.
pub open spec fn copied_list(paths: Seq<Vec<u8>>) -> Seq<char> {
    "copy\n"@ + joined(uris_of(paths), "\n"@) + "\n"@
}

/// The list of copied files that desktops share.
pub fn uri_list(paths: &Vec<Vec<u8>>) -> (list: String)
    ensures
        list@ == desktop_list(paths@),
{
    let mut list = join_uris(paths, "\r\n");
    list.append("\r\n");
    list
}

/// The list of copied files as GNOME writes it.
pub fn gnome_list(paths: &Vec<Vec<u8>>) -> (list: String)
    ensures
        list@ == copied_list(paths@),
{
    let mut list = "copy\n".to_owned();
    list.append(join_uris(paths, "\n").as_str());
    list.append("\n");
    list
}

proof fn lemma_unescape(path: Seq<u8>)
    ensures
        unescaped(escaped(path)) == Some(path),
        forall|i: int|
            0 <= i < escaped(path).len() ==> 0x21 <= #[trigger] escaped(path)[i] <= 0x7e,
    decreases path.len(),
{
    if path.len() > 0 {
        let byte = path[0];
        let rest = path.skip(1);
        lemma_unescape(rest);
        let all = escaped(path);
        let head = escape(byte);
        assert(all == head + escaped(rest));
        assert forall|i: int| 0 <= i < all.len() implies 0x21 <= #[trigger] all[i] <= 0x7e by {
            if i < head.len() {
                assert(all[i] == head[i]);
            } else {
                assert(all[i] == escaped(rest)[i - head.len()]);
            }
        }
        assert(path =~= seq![byte] + rest);
        if is_plain(byte) {
            assert(all.skip(1) =~= escaped(rest));
        } else {
            assert(all.skip(3) =~= escaped(rest));
            let high = byte as int / 16;
            let low = byte as int % 16;
            assert(foreign::hex_value(upper_digit(high)) == Some(high));
            assert(foreign::hex_value(upper_digit(low)) == Some(low));
            assert(all[1] == upper_digit(high) && all[2] == upper_digit(low));
        }
    } else {
        assert(path =~= Seq::empty());
    }
}

/// A URI starts as it should, and there is no white space in it.
pub proof fn lemma_uri_is_printable(path: Seq<u8>)
    ensures
        uri_of(path).len() >= 7,
        uri_of(path)[0] == 'f',
        forall|i: int|
            0 <= i < uri_of(path).len() ==> '\u{21}' <= #[trigger] uri_of(path)[i] <= '\u{7e}',
{
    reveal_strlit("file://");
    lemma_unescape(path);
    let tail = escaped(path);
    let uri = uri_of(path);
    let scheme = "file://"@;
    assert forall|i: int| 0 <= i < uri.len() implies '\u{21}' <= #[trigger] uri[i] <= '\u{7e}' by {
        if i >= scheme.len() {
            assert(uri[i] == tail[i - scheme.len()] as char);
        } else {
            assert(uri[i] == scheme[i]);
        }
    }
}

/// The URI of an absolute path names that path.
pub proof fn law_uri_names_its_path(path: Seq<u8>)
    requires
        path.len() > 0,
        path[0] == path::SLASH,
        !path.contains(0),
    ensures
        uri_path(uri_of(path)) == Ok::<Seq<u8>, UriError>(path),
{
    reveal_strlit("file://");
    reveal_strlit("localhost");
    lemma_unescape(path);
    let tail = escaped(path);
    let uri = uri_of(path);
    let scheme = "file://"@;
    assert forall|i: int| 0 <= i < uri.len() implies '\u{21}' <= #[trigger] uri[i] <= '\u{7e}' by {
        if i >= scheme.len() {
            assert(uri[i] == tail[i - scheme.len()] as char);
        } else {
            assert(uri[i] == scheme[i]);
        }
    }
    assert(uri[0] == 'f');
    assert(text::trimmed_start(uri) == uri);
    assert(!text::is_white_space(uri.last()));
    assert(text::trimmed(uri) == uri);
    assert(vstd::utf8::is_ascii_chars(uri));
    assert(vstd::utf8::is_ascii_chars(scheme));
    assert(vstd::utf8::is_ascii_chars("localhost"@));
    vstd::utf8::is_ascii_chars_encode_utf8(uri);
    vstd::utf8::is_ascii_chars_encode_utf8(scheme);
    vstd::utf8::is_ascii_chars_encode_utf8("localhost"@);
    let all = text::bytes_of(uri);
    let prefix = text::bytes_of(scheme);
    assert forall|i: int| 0 <= i < all.len() implies all[i] == (prefix + tail)[i] by {
        assert(all[i] == uri[i] as u8);
        if i < scheme.len() {
            assert(prefix[i] == scheme[i] as u8);
        } else {
            assert(uri[i] == tail[i - scheme.len()] as char);
        }
    }
    assert(all =~= prefix + tail);
    assert(prefix =~= all.subrange(0, prefix.len() as int));
    assert(all.skip(prefix.len() as int) =~= tail);
    assert(tail[0] == path::SLASH);
    let host = text::bytes_of("localhost"@);
    assert(host[0] == 'l' as u8);
    if host.is_prefix_of(tail) {
        assert(tail.subrange(0, host.len() as int)[0] == tail[0]);
    }
}

} // verus!
