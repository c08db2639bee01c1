//! What holds of the clipboard as a whole.

use vstd::prelude::*;
use vstd::utf8::*;

use crate::clipboard;
use crate::clipboard::forms;
use crate::clipboard::forms::{FormError, FormSays, PathSearch};
use crate::clipboard::uri;
use crate::clipboard::uri::UriError;
use crate::clipboard::watch;
use crate::clipboard::watch::{Counter, WatchState};
use crate::clipboard::ChangeState;
use crate::path;
use crate::protocol;
use crate::protocol::PayloadState;
use crate::text;

verus! {

/// The bytes of the first form that is offered under a type; plain text has none.
pub open spec fn taken_as(
    forms: Seq<(Option<Seq<char>>, Seq<u8>)>,
    mime: Option<Seq<char>>,
) -> Option<Seq<u8>>
    decreases forms.len(),
{
    if forms.len() == 0 {
        None
    } else if forms[0].0 == mime {
        Some(forms[0].1)
    } else {
        taken_as(forms.skip(1), mime)
    }
}

proof fn lemma_types_differ()
    ensures
        "text/html"@ != "text/rtf"@,
        "text/html"@ != "image/png"@,
        "text/rtf"@ != "image/png"@,
{
    reveal_strlit("text/html");
    reveal_strlit("text/rtf");
    reveal_strlit("image/png");
    assert("text/html"@[5] == 'h');
    assert("text/rtf"@[5] == 'r');
    assert("image/png"@[5] == '/');
}

/// Taking one form more, at the end.
proof fn lemma_taken_with(
    forms: Seq<(Option<Seq<char>>, Seq<u8>)>,
    mime: Option<Seq<char>>,
    data: Option<Seq<u8>>,
    wanted: Option<Seq<char>>,
)
    ensures
        taken_as(forms::with_form(forms, mime, data), wanted) == if taken_as(forms, wanted) is Some {
            taken_as(forms, wanted)
        } else if mime == wanted {
            data
        } else {
            None
        },
    decreases forms.len(),
{
    if let Some(bytes) = data {
        let all = forms.push((mime, bytes));
        if forms.len() == 0 {
            assert(all.skip(1) =~= Seq::empty());
            assert(taken_as(all.skip(1), wanted) is None);
        } else {
            assert(all[0] == forms[0]);
            lemma_taken_with(forms.skip(1), mime, data, wanted);
            assert(all.skip(1) =~= forms.skip(1).push((mime, bytes)));
        }
    }
}

/// Taking the offered forms by their types and reading them gives back the payload
/// that was offered: plain text by no type, and the others by `text/html`,
/// `text/rtf` and `image/png`.
pub proof fn law_offered_payload_is_read_back(p: PayloadState)
    requires
        p.files.len() == 0,
    ensures
        ({
            let offered = forms::forms_of(p);
            forms::read_as(
                taken_as(offered, None),
                taken_as(offered, Some("text/html"@)),
                taken_as(offered, Some("text/rtf"@)),
                taken_as(offered, Some("image/png"@)),
            ) == p
        }),
{
    law_each_form_is_offered_once(p);
    forms::law_offered_forms_are_read_back(p);
}

/// Each form that a payload has is offered once, under its own type and with its own
/// bytes, and no other form is: the text as plain text, and the others under
/// `text/html`, `text/rtf` and `image/png`.
pub proof fn law_each_form_is_offered_once(p: PayloadState)
    ensures
        ({
            let offered = forms::forms_of(p);
            &&& p.text is Some ==> taken_as(offered, None) == Some(text::bytes_of(p.text->0))
            &&& p.html is Some ==> taken_as(offered, Some("text/html"@)) == Some(
                text::bytes_of(p.html->0),
            )
            &&& p.rtf is Some ==> taken_as(offered, Some("text/rtf"@)) == Some(
                text::bytes_of(p.rtf->0),
            )
            &&& taken_as(offered, Some("image/png"@)) == p.png
            &&& p.text is None ==> taken_as(offered, None) is None
            &&& p.html is None ==> taken_as(offered, Some("text/html"@)) is None
            &&& p.rtf is None ==> taken_as(offered, Some("text/rtf"@)) is None
            &&& forall|mime: Seq<char>| #[trigger]
                taken_as(offered, Some(mime)) is Some ==> mime == "text/html"@ || mime
                    == "text/rtf"@ || mime == "image/png"@
            &&& offered.len() == (if p.text is Some {
                1int
            } else {
                0
            }) + (if p.html is Some {
                1int
            } else {
                0
            }) + (if p.rtf is Some {
                1int
            } else {
                0
            }) + (if p.png is Some {
                1int
            } else {
                0
            })
        }),
{
    lemma_types_differ();
    let none = Seq::<(Option<Seq<char>>, Seq<u8>)>::empty();
    let a = forms::with_form(none, None, protocol::raw(p.text));
    let b = forms::with_form(a, Some("text/html"@), protocol::raw(p.html));
    let c = forms::with_form(b, Some("text/rtf"@), protocol::raw(p.rtf));
    assert forall|wanted: Option<Seq<char>>|
        taken_as(forms::forms_of(p), wanted) == if wanted is None {
            protocol::raw(p.text)
        } else if wanted == Some("text/html"@) {
            protocol::raw(p.html)
        } else if wanted == Some("text/rtf"@) {
            protocol::raw(p.rtf)
        } else if wanted == Some("image/png"@) {
            p.png
        } else {
            None
        } by {
        lemma_taken_with(none, None, protocol::raw(p.text), wanted);
        lemma_taken_with(a, Some("text/html"@), protocol::raw(p.html), wanted);
        lemma_taken_with(b, Some("text/rtf"@), protocol::raw(p.rtf), wanted);
        lemma_taken_with(c, Some("image/png"@), p.png, wanted);
    }
}

/// A form of up to 16 MiB is kept as it is, and a longer one is dropped.
pub proof fn law_long_forms_are_dropped(data: Seq<u8>)
    ensures
        data.len() <= 16_777_216 ==> forms::within_limit(data) == Some(data),
        data.len() > 16_777_216 ==> forms::within_limit(data) is None,
{
}

/// Bytes that are not text are left out, and a picture is taken as it is.
pub proof fn law_only_text_is_read_as_text(
    words: Option<Seq<u8>>,
    html: Option<Seq<u8>>,
    rtf: Option<Seq<u8>>,
    png: Option<Seq<u8>>,
)
    ensures
        ({
            let p = forms::read_as(words, html, rtf, png);
            &&& p.text is Some <==> words is Some && valid_utf8(words->0)
            &&& p.html is Some <==> html is Some && valid_utf8(html->0)
            &&& p.rtf is Some <==> rtf is Some && valid_utf8(rtf->0)
            &&& p.text is Some ==> text::bytes_of(p.text->0) == words->0
            &&& p.html is Some ==> text::bytes_of(p.html->0) == html->0
            &&& p.rtf is Some ==> text::bytes_of(p.rtf->0) == rtf->0
            &&& p.png == png
            &&& p.files.len() == 0
        }),
{
    if words is Some && valid_utf8(words->0) {
        decode_utf8_encode_utf8(words->0);
    }
    if html is Some && valid_utf8(html->0) {
        decode_utf8_encode_utf8(html->0);
    }
    if rtf is Some && valid_utf8(rtf->0) {
        decode_utf8_encode_utf8(rtf->0);
    }
}

/// A line with a line break behind it is a line of its own.
proof fn lemma_line(line: Seq<char>, rest: Seq<char>)
    requires
        !line.contains('\n'),
    ensures
        uri::line_end(line + seq!['\n'] + rest) == line.len(),
        (line + seq!['\n'] + rest).take(line.len() as int) == line,
        (line + seq!['\n'] + rest).skip(line.len() as int + 1) == rest,
    decreases line.len(),
{
    let all = line + seq!['\n'] + rest;
    assert(all.take(line.len() as int) =~= line);
    assert(all.skip(line.len() as int + 1) =~= rest);
    if line.len() > 0 {
        let fewer = line.skip(1);
        assert(!fewer.contains('\n')) by {
            if fewer.contains('\n') {
                let i = fewer.index_of('\n');
                assert(line[i + 1] == '\n');
            }
        }
        assert(line.contains(line[0]));
        lemma_line(fewer, rest);
        assert(all.skip(1) =~= fewer + seq!['\n'] + rest);
    }
}

proof fn lemma_listed(line: Seq<char>, rest: Seq<char>)
    requires
        !line.contains('\n'),
    ensures
        uri::listed(line + seq!['\n'] + rest) == (if uri::is_file_uri(text::trimmed(line)) {
            seq![text::trimmed(line)]
        } else {
            Seq::empty()
        }) + uri::listed(rest),
{
    lemma_line(line, rest);
    let all = line + seq!['\n'] + rest;
    uri::lemma_line_end(all);
    uri::lemma_line_end(rest);
    assert(uri::listed(all) == (if uri::is_file_uri(text::trimmed(line)) {
        seq![text::trimmed(line)]
    } else {
        Seq::empty()
    }) + uri::listed(all.skip(line.len() as int + 1)));
}

/// A URI is a line that names it, with or without a carriage return.
proof fn lemma_uri_line(path: Seq<u8>)
    ensures
        !uri::uri_of(path).contains('\n'),
        !uri::uri_of(path).push('\r').contains('\n'),
        text::trimmed(uri::uri_of(path)) == uri::uri_of(path),
        text::trimmed(uri::uri_of(path).push('\r')) == uri::uri_of(path),
        uri::is_file_uri(uri::uri_of(path)),
{
    let line = uri::uri_of(path);
    let long = line.push('\r');
    uri::lemma_uri_is_printable(path);
    assert(!text::is_white_space(line[0]));
    assert(!text::is_white_space(line.last()));
    assert(long[0] == line[0]);
    assert(long.drop_last() =~= line);
    assert(text::trimmed_start(long) == long);
    assert(text::trimmed_end(long) == text::trimmed_end(line));
    reveal_strlit("file://");
    let scheme = "file://"@;
    assert(is_ascii_chars(line));
    assert(is_ascii_chars(scheme));
    is_ascii_chars_encode_utf8(line);
    is_ascii_chars_encode_utf8(scheme);
    let all = text::bytes_of(line);
    let start = text::bytes_of(scheme);
    assert forall|i: int| 0 <= i < start.len() implies start[i] == all[i] by {
        assert(line[i] == scheme[i]);
    }
    assert(start =~= all.subrange(0, start.len() as int));
    if long.contains('\n') {
        let i = long.index_of('\n');
        assert(i == line.len() || long[i] == line[i]);
    }
}

proof fn lemma_joined_front(parts: Seq<Seq<char>>, separator: Seq<char>)
    requires
        parts.len() > 0,
    ensures
        parts.len() == 1 ==> uri::joined(parts, separator) == parts[0],
        parts.len() > 1 ==> uri::joined(parts, separator) == parts[0] + separator + uri::joined(
            parts.skip(1),
            separator,
        ),
    decreases parts.len(),
{
    if parts.len() > 1 {
        lemma_joined_front(parts.drop_last(), separator);
        let rest = parts.skip(1);
        assert(rest.drop_last() =~= parts.drop_last().skip(1));
        if parts.len() == 2 {
            assert(uri::joined(rest, separator) == parts[1]);
            assert(uri::joined(parts.drop_last(), separator) == parts[0]);
        } else {
            assert(uri::joined(rest, separator) == uri::joined(rest.drop_last(), separator)
                + separator + rest.last());
        }
        assert(uri::joined(parts, separator) =~= parts[0] + separator + uri::joined(
            rest,
            separator,
        ));
    }
}

proof fn lemma_nothing_listed()
    ensures
        uri::listed(Seq::empty()) == Seq::<Seq<char>>::empty(),
        !uri::is_file_uri(Seq::empty()),
{
    let none = Seq::<char>::empty();
    reveal_strlit("file://");
    assert(is_ascii_chars("file://"@));
    is_ascii_chars_encode_utf8("file://"@);
    assert(is_ascii_chars(none));
    is_ascii_chars_encode_utf8(none);
    assert(none.take(0) =~= none);
    assert(text::bytes_of(none).len() == 0);
    assert(text::bytes_of("file://"@).len() == 7);
}

proof fn lemma_lines(paths: Seq<Vec<u8>>, wide: bool)
    ensures
        uri::listed(
            uri::joined(
                uri::uris_of(paths),
                if wide {
                    seq!['\r', '\n']
                } else {
                    seq!['\n']
                },
            ) + if wide {
                seq!['\r', '\n']
            } else {
                seq!['\n']
            },
        ) == uri::uris_of(paths),
    decreases paths.len(),
{
    let separator = if wide {
        seq!['\r', '\n']
    } else {
        seq!['\n']
    };
    let uris = uri::uris_of(paths);
    let all = uri::joined(uris, separator) + separator;
    lemma_nothing_listed();
    if paths.len() == 0 {
        let line = if wide {
            seq!['\r']
        } else {
            Seq::empty()
        };
        assert(all =~= line + seq!['\n'] + Seq::<char>::empty());
        assert(line.len() > 0 ==> line.drop_last() =~= Seq::empty());
        assert(line.len() > 0 ==> line.skip(1) =~= Seq::empty());
        assert(text::trimmed_start(Seq::<char>::empty()) == Seq::<char>::empty());
        assert(text::trimmed_start(line) =~= Seq::<char>::empty());
        assert(text::trimmed(line) == Seq::<char>::empty());
        lemma_listed(line, Seq::empty());
        assert(uris =~= Seq::empty());
    } else {
        let first = uris[0];
        let line = if wide {
            first.push('\r')
        } else {
            first
        };
        lemma_uri_line(paths[0]@);
        lemma_joined_front(uris, separator);
        let others = paths.skip(1);
        assert(uri::uris_of(others) =~= uris.skip(1));
        if paths.len() == 1 {
            assert(all =~= line + seq!['\n'] + Seq::<char>::empty());
            lemma_listed(line, Seq::empty());
            assert(uris =~= seq![first]);
        } else {
            let rest = uri::joined(uris.skip(1), separator) + separator;
            assert(all =~= line + seq!['\n'] + rest);
            lemma_listed(line, rest);
            lemma_lines(others, wide);
            assert(uris =~= seq![first] + uris.skip(1));
        }
    }
}

/// The lists in which copied files are offered name those files, in their order, and
/// no others.
pub proof fn law_lists_name_the_copied_files(paths: Seq<Vec<u8>>)
    ensures
        uri::listed(uri::desktop_list(paths)) == uri::uris_of(paths),
        uri::listed(uri::copied_list(paths)) == uri::uris_of(paths),
{
    reveal_strlit("\r\n");
    reveal_strlit("\n");
    reveal_strlit("copy\n");
    reveal_strlit("file://");
    assert("\r\n"@ =~= seq!['\r', '\n']);
    assert("\n"@ =~= seq!['\n']);
    lemma_lines(paths, true);
    lemma_lines(paths, false);
    let line = seq!['c', 'o', 'p', 'y'];
    let rest = uri::joined(uri::uris_of(paths), "\n"@) + "\n"@;
    assert(uri::copied_list(paths) =~= line + seq!['\n'] + rest);
    lemma_listed(line, rest);
    assert(text::trimmed(line) == line);
    assert(is_ascii_chars(line));
    is_ascii_chars_encode_utf8(line);
    assert(is_ascii_chars("file://"@));
    is_ascii_chars_encode_utf8("file://"@);
    assert(text::bytes_of(line).len() == 4);
    assert(text::bytes_of("file://"@).len() == 7);
    assert(Seq::<Seq<char>>::empty() + uri::listed(rest) =~= uri::listed(rest));
}

/// Whether every path is absolute and could be that of a file.
pub open spec fn are_absolute(paths: Seq<Vec<u8>>) -> bool {
    forall|i: int|
        0 <= i < paths.len() ==> (#[trigger] paths[i])@.len() > 0 && paths[i]@[0] == 47
            && !paths[i]@.contains(0)
}

/// Files that are offered are found: either list, looked at as a form on the
/// clipboard, gives the very paths that were offered, in their order.
pub proof fn law_offered_files_are_found(paths: Seq<Vec<u8>>)
    requires
        paths.len() > 0,
        are_absolute(paths),
    ensures
        forms::form_says(text::bytes_of(uri::desktop_list(paths))) == FormSays::Paths(
            clipboard::paths_of(paths),
        ),
        forms::form_says(text::bytes_of(uri::copied_list(paths))) == FormSays::Paths(
            clipboard::paths_of(paths),
        ),
{
    law_lists_name_the_copied_files(paths);
    let uris = uri::uris_of(paths);
    assert forall|i: int| 0 <= i < uris.len() implies #[trigger] uri::uri_path(uris[i]) == Ok::<
        Seq<u8>,
        UriError,
    >(paths[i]@) by {
        assert(paths[i]@[0] == path::SLASH);
        uri::law_uri_names_its_path(paths[i]@);
    }
    forms::lemma_no_fault(uris, uris.len() as int);
    let found = uris.map_values(|uri: Seq<char>| uri::uri_path(uri)->Ok_0);
    assert forall|i: int| 0 <= i < found.len() implies found[i] == clipboard::paths_of(paths)[i] by {
        assert(uri::uri_path(uris[i]) == Ok::<Seq<u8>, UriError>(paths[i]@));
    }
    assert(found =~= clipboard::paths_of(paths));
    let a = uri::desktop_list(paths);
    let b = uri::copied_list(paths);
    encode_utf8_valid_utf8(a);
    encode_utf8_decode_utf8(a);
    encode_utf8_valid_utf8(b);
    encode_utf8_decode_utf8(b);
}

/// A search goes on past forms that name nothing, ends with the first that names
/// files or is wrong, and remembers forms that could not be read: it comes to nothing
/// only where every form could be read.
pub proof fn law_search_for_files(
    before: PathSearch,
    form: Option<Vec<u8>>,
    after: PathSearch,
    result: Result<Option<Vec<Vec<u8>>>, FormError>,
    paths: Seq<Vec<u8>>,
)
    requires
        forms::looks(before, form, after, result),
        paths.len() > 0,
        are_absolute(paths),
    ensures
        form is None ==> (result matches Ok(found) && found is None) && forms::outcome(after)
            == Err::<(), FormError>(FormError::Unreadable),
        form is Some ==> after == before,
        form is Some && !valid_utf8((form->0)@) ==> result == Err::<
            Option<Vec<Vec<u8>>>,
            FormError,
        >(FormError::NotText),
        form is Some && (form->0)@ == text::bytes_of(uri::desktop_list(paths)) ==> (
        result matches Ok(Some(found)) && clipboard::paths_of(found@) == clipboard::paths_of(
            paths,
        )),
        !before.failed ==> forms::outcome(before) == Ok::<(), FormError>(()),
        before.failed ==> after.failed,
{
    law_offered_files_are_found(paths);
    if form is Some && (form->0)@ == text::bytes_of(uri::desktop_list(paths)) {
        let found = (result->Ok_0->0)@;
        assert(clipboard::paths_of(found) =~= clipboard::paths_of(paths));
    }
}

/// In a URI only letters, digits, `-`, `_`, `.`, `~` and `/` stand for themselves;
/// any other byte is a percent sign and its two uppercase hexadecimal digits.
pub proof fn law_uris_escape_all_but_plain_bytes(path: Seq<u8>, rest: Seq<u8>, byte: u8)
    requires
        path == seq![byte] + rest,
    ensures
        ({
            let plain = 48 <= byte <= 57 || 65 <= byte <= 90 || 97 <= byte <= 122 || byte == 45
                || byte == 95 || byte == 46 || byte == 126 || byte == 47;
            let digit = |value: int|
                if value < 10 {
                    (48 + value) as u8
                } else {
                    (55 + value) as u8
                };
            &&& plain ==> uri::escaped(path) == seq![byte] + uri::escaped(rest)
            &&& !plain ==> uri::escaped(path) == seq![
                37u8,
                digit(byte as int / 16),
                digit(byte as int % 16),
            ] + uri::escaped(rest)
        }),
{
    assert(path.skip(1) =~= rest);
}

/// Escapes are read back: a percent sign with two hexadecimal digits, in either case,
/// is the byte that they give, and any other byte is itself; a percent sign without
/// two such digits is refused.
pub proof fn law_escapes_are_resolved(value: Seq<u8>)
    requires
        value.len() > 0,
    ensures
        ({
            let digit = |byte: u8|
                if 48 <= byte <= 57 {
                    byte - 48
                } else if 65 <= byte <= 70 {
                    byte - 55
                } else if 97 <= byte <= 102 {
                    byte - 87
                } else {
                    -1
                };
            let is_escape = value.len() >= 3 && digit(value[1]) >= 0 && digit(value[2]) >= 0;
            &&& value[0] != 37 ==> uri::unescaped(value) == match uri::unescaped(value.skip(1)) {
                Some(rest) => Some(seq![value[0]] + rest),
                None => None,
            }
            &&& value[0] == 37 && !is_escape ==> uri::unescaped(value) is None
            &&& value[0] == 37 && is_escape ==> uri::unescaped(value) == match uri::unescaped(
                value.skip(3),
            ) {
                Some(rest) => Some(
                    seq![(digit(value[1]) * 16 + digit(value[2])) as u8] + rest,
                ),
                None => None,
            }
        }),
        uri::unescaped(Seq::empty()) == Some(Seq::<u8>::empty()),
{
}

/// Files that someone copies are reported: those that were not on the clipboard, and
/// that this device did not put there; and those that were, if they were copied again.
/// What is there but was not copied again is not.
pub proof fn law_copied_files_are_reported(w: WatchState, paths: Seq<Seq<u8>>, selected: bool)
    requires
        w.injected is None,
        !watch::same_files(w.injected_files, paths),
    ensures
        ({
            let known = watch::same_files(w.handled_files, paths) || watch::same_files(
                w.baseline_files,
                paths,
            );
            let first = watch::observed(w, selected, ChangeState::Files(paths));
            let second = watch::observed(first.0, false, ChangeState::Files(paths));
            let again = watch::observed(first.0, true, ChangeState::Files(paths));
            &&& first.1 <==> selected || !known
            &&& !second.1
            &&& again.1
        }),
{
    assert forall|i: int| 0 <= i < paths.len() implies path::same_path(#[trigger] paths[i], paths[i]) by {
    }
}

/// What this device put on the clipboard hides one change and no more: the next thing
/// that someone copies is reported.
pub proof fn law_next_copy_is_reported(
    w: WatchState,
    put: PayloadState,
    copied: PayloadState,
    selected: bool,
)
    requires
        put != copied,
        w.baseline != Some(put),
    ensures
        ({
            let injected = watch::injected(w, protocol::digest_of(put), None);
            let seen = watch::observed(injected, selected, ChangeState::Payload(put)).0;
            let next = watch::observed(seen, selected, ChangeState::Payload(copied));
            let back = watch::observed(next.0, selected, ChangeState::Payload(put));
            next.1 && back.1
        }),
{
}

/// A clipboard that counts its changes: a change of this device is not reported, any
/// other is, once.
pub proof fn law_counted_changes(c: Counter, own: i64, count: i64)
    ensures
        !watch::counted(watch::put_at(c, own), own).1,
        !watch::counted(watch::restarted(c, own), own).1,
        count != own ==> watch::counted(watch::put_at(c, own), count).1,
        count != own ==> watch::counted(watch::restarted(c, own), count).1,
        !watch::counted(watch::counted(c, count).0, count).1,
        watch::counted(c, count).0.count == count,
        watch::counted(c, count).1 ==> count != c.count,
        count != c.count && c.injected is None ==> watch::counted(c, count).1,
        count != c.count && c.injected == Some(count) ==> !watch::counted(c, count).1,
{
}

/// Something that was on the clipboard before is reported when it comes back: a payload
/// behind files, files behind a payload, and files that this device put there once someone
/// copied something else in between.
pub proof fn law_what_comes_back_is_reported(
    w: WatchState,
    payload: PayloadState,
    paths: Seq<Seq<u8>>,
    digest: Seq<u8>,
)
    requires
        w.injected is None,
        !watch::same_files(w.injected_files, paths),
        !watch::same_files(w.handled_files, paths),
        !watch::same_files(w.baseline_files, paths),
        w.baseline != Some(payload),
    ensures
        ({
            let text = ChangeState::Payload(payload);
            let files = ChangeState::Files(paths);
            let first = watch::observed(w, false, text);
            let second = watch::observed(first.0, false, files);
            let third = watch::observed(second.0, false, text);
            let fourth = watch::observed(third.0, false, files);
            first.1 && second.1 && third.1 && fourth.1
        }),
        ({
            let put = watch::injected(w, digest, Some(paths));
            let seen = watch::observed(put, false, ChangeState::Files(paths));
            let next = watch::observed(
                WatchState { injected: None, ..seen.0 },
                false,
                ChangeState::Payload(payload),
            );
            let back = watch::observed(next.0, false, ChangeState::Files(paths));
            !seen.1 && next.1 && back.1
        }),
{
    assert forall|i: int| 0 <= i < paths.len() implies path::same_path(#[trigger] paths[i], paths[i]) by {
    }
}

/// Copied files that were sent on request are not reported again while they are there, and
/// are forgotten once something else is.
pub proof fn law_handled_files_are_not_reported_again(
    w: WatchState,
    paths: Seq<Seq<u8>>,
    payload: PayloadState,
)
    requires
        w.baseline != Some(payload),
    ensures
        ({
            let sent = watch::handled(w, paths);
            let seen = watch::observed(sent, false, ChangeState::Files(paths));
            let next = watch::observed(seen.0, false, ChangeState::Payload(payload));
            let back = watch::observed(next.0, false, ChangeState::Files(paths));
            !seen.1 && next.1 && back.1
        }),
{
    assert forall|i: int| 0 <= i < paths.len() implies path::same_path(#[trigger] paths[i], paths[i]) by {
    }
}

/// A valid payload without files that is offered is read back from the clipboard, and what
/// the forms make is read exactly if it is valid.
pub proof fn law_valid_payload_is_read_back(
    p: PayloadState,
    words: Option<Seq<u8>>,
    html: Option<Seq<u8>>,
    rtf: Option<Seq<u8>>,
    png: Option<Seq<u8>>,
)
    requires
        p.files.len() == 0,
        protocol::payload_fault(p) is None,
    ensures
        ({
            let offered = forms::forms_of(p);
            forms::payload_read(
                taken_as(offered, None),
                taken_as(offered, Some("text/html"@)),
                taken_as(offered, Some("text/rtf"@)),
                taken_as(offered, Some("image/png"@)),
            ) == Some(p)
        }),
        forms::payload_read(words, html, rtf, png) is Some <==> protocol::payload_fault(
            forms::read_as(words, html, rtf, png),
        ) is None,
        forms::payload_read(words, html, rtf, png) is Some ==> forms::payload_read(
            words,
            html,
            rtf,
            png,
        ) == Some(forms::read_as(words, html, rtf, png)),
{
    law_offered_payload_is_read_back(p);
}

/// What is remembered is what was seen last: of a payload the payload and no files, of files
/// the files and no payload. What this device put there is forgotten with the next payload
/// that differs; files that are known and were not copied again change nothing.
pub proof fn law_last_change_is_remembered(
    w: WatchState,
    selected: bool,
    payload: PayloadState,
    paths: Seq<Seq<u8>>,
)
    ensures
        ({
            let after = watch::observed(w, selected, ChangeState::Payload(payload)).0;
            &&& after.baseline == Some(payload)
            &&& after.baseline_files is None
            &&& after.handled_files is None
            &&& w.baseline != Some(payload) ==> after.injected is None
                && after.injected_files is None
            &&& w.baseline == Some(payload) ==> after.injected == w.injected && after.injected_files
                == w.injected_files
        }),
        ({
            let after = watch::observed(w, selected, ChangeState::Files(paths)).0;
            let known = !selected && (watch::same_files(w.handled_files, paths)
                || watch::same_files(w.baseline_files, paths));
            &&& known ==> after == w
            &&& !known ==> after.baseline_files == Some(paths) && after.baseline is None
                && after.handled_files is None && after.injected_files == w.injected_files
            &&& !known && watch::same_files(w.injected_files, paths) ==> after.injected
                == w.injected
            &&& !known && !watch::same_files(w.injected_files, paths) ==> after.injected is None
        }),
{
}

/// What this device puts on the clipboard, and what it sends on request, is remembered as
/// such, and what was seen before stays; starting anew remembers what is there and nothing
/// else.
pub proof fn law_own_changes_are_remembered(
    w: WatchState,
    digest: Seq<u8>,
    put: Option<Seq<Seq<u8>>>,
    paths: Seq<Seq<u8>>,
    payload: Option<PayloadState>,
)
    ensures
        watch::injected(w, digest, put).injected == Some(digest),
        watch::injected(w, digest, put).injected_files == put,
        watch::injected(w, digest, put).baseline == w.baseline,
        watch::injected(w, digest, put).baseline_files == w.baseline_files,
        watch::injected(w, digest, put).handled_files == w.handled_files,
        watch::handled(w, paths).baseline_files == Some(paths),
        watch::handled(w, paths).injected_files == Some(paths),
        watch::handled(w, paths).handled_files == Some(paths),
        watch::handled(w, paths).injected is None,
        watch::handled(w, paths).baseline == w.baseline,
        watch::rebased(w, put, payload).injected is None,
        watch::rebased(w, put, payload).injected_files is None,
        watch::rebased(w, put, payload).baseline_files == put,
        put is None ==> watch::rebased(w, put, payload).baseline == payload,
        put is Some ==> watch::rebased(w, put, payload).baseline is None,
        watch::rebased(w, put, payload).handled_files == w.handled_files,
{
}

/// What is on the clipboard when watching starts is not reported, and anything else is.
pub proof fn law_watching_starts_from_what_is_there(
    files: Option<Seq<Seq<u8>>>,
    payload: Option<PayloadState>,
    seen: PayloadState,
    paths: Seq<Seq<u8>>,
)
    ensures
        watch::observed(
            watch::started(files, payload),
            false,
            ChangeState::Payload(seen),
        ).1 <==> payload != Some(seen),
        watch::observed(
            watch::started(files, payload),
            false,
            ChangeState::Files(paths),
        ).1 <==> !watch::same_files(files, paths),
{
}

} // verus!
