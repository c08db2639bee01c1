//! The forms in which a payload stands on the clipboard.

use vstd::prelude::*;
use vstd::utf8::*;

use crate::clipboard::uri;
use crate::clipboard::uri::UriError;
use crate::foreign;
use crate::path;
use crate::protocol;
use crate::protocol::{ClipboardPayload, PayloadState, MAX_PAYLOAD_BYTES};
use crate::text;

verus! {

/// Why the files on the clipboard are not known.
#[derive(Clone, Copy, Debug, PartialEq, Eq, Structural)]
pub enum FormError {
    /// None of the forms could be read.
    Unreadable,
    /// A form is not UTF-8.
    NotText,
    /// A form names something that is no file here.
    Uri(UriError),
}

/// The type under which a form is offered.
#[derive(Debug, PartialEq, Eq)]
pub enum Mime {
    /// The types that plain text goes by.
    Text,
    /// One type.
    Specific(String),
}

/// A form that is offered.
#[derive(Debug, PartialEq, Eq)]
pub struct Offer {
    pub mime: Mime,
    pub data: Vec<u8>,
}

/// What a form is offered as: its type, where it is no plain text, and its
/// bytes.
pub open spec fn offered(offer: Offer) -> (Option<Seq<char>>, Seq<u8>) {
    (
        match offer.mime {
            Mime::Text => None,
            Mime::Specific(mime) => Some(mime@),
        },
        offer.data@,
    )
}

/// What bytes say as text, if they are any.
pub open spec fn decoded(data: Option<Seq<u8>>) -> Option<Seq<char>> {
    match data {
        Some(data) => if valid_utf8(data) {
            Some(decode_utf8(data))
        } else {
            None
        },
        None => None,
    }
}

/// What optional bytes are.
pub open spec fn maybe_bytes(data: Option<Vec<u8>>) -> Option<Seq<u8>> {
    match data {
        Some(data) => Some(data@),
        None => None,
    }
}

/// The payload that the forms on the clipboard make.
pub open spec fn read_as(
    words: Option<Seq<u8>>,
    html: Option<Seq<u8>>,
    rtf: Option<Seq<u8>>,
    png: Option<Seq<u8>>,
) -> PayloadState {
    PayloadState {
        text: decoded(words),
        html: decoded(html),
        rtf: decoded(rtf),
        png,
        files: Seq::empty(),
    }
}

/// The payload that the forms on the clipboard make, unless it has a fault.
pub open spec fn payload_read(
    words: Option<Seq<u8>>,
    html: Option<Seq<u8>>,
    rtf: Option<Seq<u8>>,
    png: Option<Seq<u8>>,
) -> Option<PayloadState> {
    let read = read_as(words, html, rtf, png);
    if protocol::payload_fault(read) is None {
        Some(read)
    } else {
        None
    }
}

/// What bytes say as text, if they are any.
fn decode(data: Option<Vec<u8>>) -> (words: Option<String>)
    ensures
        protocol::words_of(words) == decoded(maybe_bytes(data)),
{
    match data {
        Some(data) => foreign::text_from_utf8(data),
        None => None,
    }
}

/// A form, unless it is longer than a payload may be.
pub open spec fn within_limit(data: Seq<u8>) -> Option<Seq<u8>> {
    if data.len() <= MAX_PAYLOAD_BYTES {
        Some(data)
    } else {
        None
    }
}

/// Drops a form that is longer than a payload may be.
pub fn limited(data: Vec<u8>) -> (kept: Option<Vec<u8>>)
    ensures
        maybe_bytes(kept) == within_limit(data@),
{
    if data.len() > MAX_PAYLOAD_BYTES {
        return None;
    }
    Some(data)
}

/// The payload that the forms on the clipboard make, unless it has a fault. A
/// form of text that is not UTF-8 is left out.
pub fn read_forms(
    words: Option<Vec<u8>>,
    html: Option<Vec<u8>>,
    rtf: Option<Vec<u8>>,
    png: Option<Vec<u8>>,
) -> (payload: Option<ClipboardPayload>)
    ensures
        ({
            let read = payload_read(
                maybe_bytes(words),
                maybe_bytes(html),
                maybe_bytes(rtf),
                maybe_bytes(png),
            );
            match payload {
                Some(payload) => read == Some(payload@),
                None => read is None,
            }
        }),
{
    let ghost read = read_as(
        maybe_bytes(words),
        maybe_bytes(html),
        maybe_bytes(rtf),
        maybe_bytes(png),
    );
    let payload = ClipboardPayload {
        text: decode(words),
        html: decode(html),
        rtf: decode(rtf),
        png,
        files: Vec::new(),
    };
    assert(payload@.files =~= Seq::empty());
    assert(payload@ == read);
    match payload.validate() {
        Ok(()) => Some(payload),
        Err(_) => None,
    }
}

/// What one form says of the files on the clipboard.
pub enum FormSays {
    /// It names files.
    Paths(Seq<Seq<u8>>),
    /// It names none.
    Nothing,
    /// It is wrong.
    Fault(FormError),
}

/// What one form says of the files on the clipboard.
pub open spec fn form_says(data: Seq<u8>) -> FormSays {
    if !valid_utf8(data) {
        FormSays::Fault(FormError::NotText)
    } else {
        let uris = uri::listed(decode_utf8(data));
        if uris.len() == 0 {
            FormSays::Nothing
        } else {
            match uri::uris_fault(uris, uris.len() as int) {
                Some(error) => FormSays::Fault(FormError::Uri(error)),
                None => FormSays::Paths(
                    uris.map_values(|uri: Seq<char>| uri::uri_path(uri)->Ok_0),
                ),
            }
        }
    }
}

/// The search for copied files in the forms that may name them, one form after
/// the other.
#[derive(Clone, Copy, Debug, PartialEq, Eq, Structural)]
pub struct PathSearch {
    /// Whether some form could not be read.
    pub failed: bool,
}

/// Whether a form is looked at: how the search stands then, and what was found.
pub open spec fn looks(
    before: PathSearch,
    form: Option<Vec<u8>>,
    after: PathSearch,
    result: Result<Option<Vec<Vec<u8>>>, FormError>,
) -> bool {
    &&& after.failed == (before.failed || form is None)
    &&& match form {
        None => result == Ok::<Option<Vec<Vec<u8>>>, FormError>(None),
        Some(data) => match form_says(data@) {
            FormSays::Paths(paths) => {
                &&& result matches Ok(Some(found))
                &&& found@.len() == paths.len()
                &&& forall|i: int| 0 <= i < paths.len() ==> (#[trigger] found@[i])@ == paths[i]
            },
            FormSays::Nothing => result == Ok::<Option<Vec<Vec<u8>>>, FormError>(None),
            FormSays::Fault(error) => result == Err::<Option<Vec<Vec<u8>>>, FormError>(error),
        },
    }
}

/// What a search that no form ended comes to.
pub open spec fn outcome(search: PathSearch) -> Result<(), FormError> {
    if search.failed {
        Err(FormError::Unreadable)
    } else {
        Ok(())
    }
}

impl PathSearch {
    /// No form was looked at.
    pub fn new() -> (search: Self)
        ensures
            !search.failed,
    {
        PathSearch { failed: false }
    }

    /// Looks at the next form, or notes that it could not be read. The search is
    /// over with the first form that names files or is wrong.
    pub fn look(&mut self, form: Option<Vec<u8>>) -> (result: Result<
        Option<Vec<Vec<u8>>>,
        FormError,
    >)
        ensures
            looks(*old(self), form, *final(self), result),
    {
        let data = match form {
            None => {
                self.failed = true;
                return Ok(None);
            },
            Some(data) => data,
        };
        let ghost bytes = data@;
        let list = match foreign::text_from_utf8(data) {
            Some(list) => list,
            None => return Err(FormError::NotText),
        };
        match uri::parse_file_uri_list(list.as_str()) {
            Ok(None) => Ok(None),
            Ok(Some(paths)) => {
                proof {
                    let uris = uri::listed(list@);
                    assert forall|i: int| 0 <= i < uris.len() implies #[trigger] uri::uri_path(
                        uris[i],
                    ) is Ok by {
                        assert(uri::uri_path(uris[i]) == Ok::<Seq<u8>, UriError>(paths@[i]@));
                    }
                    lemma_no_fault(uris, uris.len() as int);
                }
                Ok(Some(paths))
            },
            Err(error) => {
                Err(FormError::Uri(error))
            },
        }
    }

    /// Ends a search that no form ended: with nothing found, or with an error
    /// where some form could not be read.
    pub fn finish(self) -> (result: Result<(), FormError>)
        ensures
            result == outcome(self),
    {
        if self.failed {
            Err(FormError::Unreadable)
        } else {
            Ok(())
        }
    }
}

pub proof fn lemma_no_fault(uris: Seq<Seq<char>>, n: int)
    requires
        0 <= n <= uris.len(),
        forall|i: int| 0 <= i < uris.len() ==> #[trigger] uri::uri_path(uris[i]) is Ok,
    ensures
        uri::uris_fault(uris, n) is None,
    decreases n,
{
    if n > 0 {
        lemma_no_fault(uris, n - 1);
        assert(uri::uri_path(uris[n - 1]) is Ok);
    }
}

/// The forms in which copied files are offered.
pub fn offer_files(paths: &Vec<Vec<u8>>) -> (offers: Vec<Offer>)
    ensures
        offers@.len() == 3,
        offered(offers@[0]) == (
            Some("text/uri-list"@),
            text::bytes_of(uri::desktop_list(paths@)),
        ),
        offered(offers@[1]) == (
            Some("x-special/gnome-copied-files"@),
            text::bytes_of(uri::copied_list(paths@)),
        ),
        offered(offers@[2]) == (Some("application/x-kde-cutselection"@), seq![48u8]),
{
    let mut offers: Vec<Offer> = Vec::new();
    offers.push(specific("text/uri-list", uri::uri_list(paths)));
    offers.push(specific("x-special/gnome-copied-files", uri::gnome_list(paths)));
    let mut copied: Vec<u8> = Vec::new();
    copied.push(48);
    assert(copied@ =~= seq![48u8]);
    offers.push(
        Offer { mime: Mime::Specific("application/x-kde-cutselection".to_owned()), data: copied },
    );
    offers
}

/// The bytes of a text.
fn raw(words: String) -> (data: Vec<u8>)
    ensures
        data@ == text::bytes_of(words@),
{
    let slice = words.as_str().as_bytes();
    let data = path::copy_range(slice, 0, slice.len());
    assert(data@ =~= slice@);
    data
}

/// A text, offered under a type.
fn specific(mime: &str, words: String) -> (offer: Offer)
    ensures
        offered(offer) == (Some(mime@), text::bytes_of(words@)),
{
    Offer { mime: Mime::Specific(mime.to_owned()), data: raw(words) }
}

/// A form that may be missing, behind others.
pub open spec fn with_form(
    forms: Seq<(Option<Seq<char>>, Seq<u8>)>,
    mime: Option<Seq<char>>,
    data: Option<Seq<u8>>,
) -> Seq<(Option<Seq<char>>, Seq<u8>)> {
    match data {
        Some(data) => forms.push((mime, data)),
        None => forms,
    }
}

/// The forms in which a payload without files is offered: its text, its HTML,
/// its RTF and its picture, as far as it has them.
pub open spec fn forms_of(p: PayloadState) -> Seq<(Option<Seq<char>>, Seq<u8>)> {
    with_form(
        with_form(
            with_form(
                with_form(Seq::empty(), None, protocol::raw(p.text)),
                Some("text/html"@),
                protocol::raw(p.html),
            ),
            Some("text/rtf"@),
            protocol::raw(p.rtf),
        ),
        Some("image/png"@),
        p.png,
    )
}

/// What is offered.
pub open spec fn all_offered(offers: Seq<Offer>) -> Seq<(Option<Seq<char>>, Seq<u8>)> {
    offers.map_values(|offer: Offer| offered(offer))
}

/// The forms in which a payload without files is offered.
pub fn offer_payload(payload: ClipboardPayload) -> (offers: Vec<Offer>)
    ensures
        all_offered(offers@) == forms_of(payload@),
{
    let ghost p = payload@;
    let mut offers: Vec<Offer> = Vec::new();
    assert(all_offered(offers@) =~= Seq::empty());
    if let Some(words) = payload.text {
        let ghost before = offers@;
        offers.push(Offer { mime: Mime::Text, data: raw(words) });
        assert(all_offered(offers@) =~= all_offered(before).push(offered(offers@.last())));
    }
    if let Some(html) = payload.html {
        let ghost before = offers@;
        offers.push(specific("text/html", html));
        assert(all_offered(offers@) =~= all_offered(before).push(offered(offers@.last())));
    }
    if let Some(rtf) = payload.rtf {
        let ghost before = offers@;
        offers.push(specific("text/rtf", rtf));
        assert(all_offered(offers@) =~= all_offered(before).push(offered(offers@.last())));
    }
    if let Some(png) = payload.png {
        let ghost before = offers@;
        offers.push(Offer { mime: Mime::Specific("image/png".to_owned()), data: png });
        assert(all_offered(offers@) =~= all_offered(before).push(offered(offers@.last())));
    }
    offers
}

/// What is offered of a payload without files is read back as the same payload.
pub proof fn law_offered_forms_are_read_back(p: PayloadState)
    requires
        p.files.len() == 0,
    ensures
        read_as(
            protocol::raw(p.text),
            protocol::raw(p.html),
            protocol::raw(p.rtf),
            p.png,
        ) == p,
{
    lemma_decoded(p.text);
    lemma_decoded(p.html);
    lemma_decoded(p.rtf);
    assert(p.files =~= Seq::empty());
}

proof fn lemma_decoded(words: Option<Seq<char>>)
    ensures
        decoded(protocol::raw(words)) == words,
{
    if let Some(words) = words {
        encode_utf8_valid_utf8(words);
        encode_utf8_decode_utf8(words);
    }
}

} // verus!
