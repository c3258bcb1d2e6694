//! The reference of an address: the identity under which the knowledge base
//! knows a document.

use vstd::prelude::*;
use crate::text::{chars_of, push_all, string_of};
use crate::util::{host_of, host_text, is_url, path_of, url_path};

verus! {

/// What `urlencoding::decode` makes of `text`: the text with each `%` and the
/// two hexadecimal digits behind it replaced by the byte they write, read as
/// UTF-8; `None` where the bytes are not UTF-8.
pub uninterp spec fn percent_decoded(text: Seq<char>) -> Option<Seq<char>>;

/// `urlencoding::decode`, with its text as an owned `String`.
#[verifier::external_body]
fn percent_decode(text: &str) -> (decoded: Option<String>)
    ensures
        decoded.deep_view() == percent_decoded(text@),
{
    urlencoding::decode(text).ok().map(|t| t.into_owned())
}

/// Two slashes, the host and the path of the address `url`, still encoded.
pub open spec fn encoded_reference(url: Seq<char>) -> Seq<char> {
    seq!['/', '/'] + host_text(url) + url_path(url)
}

/// The reference of `url`: two slashes, its host and its path, decoded.
/// There is none if `url` is no address, or if what it encodes is no text.
pub open spec fn reference_of(url: Seq<char>) -> Option<Seq<char>> {
    if is_url(url) {
        percent_decoded(encoded_reference(url))
    } else {
        None
    }
}

/// Two slashes, the host and the path of the address `url`, still encoded.
fn encoded_ref(url: &str) -> (r: String)
    requires
        is_url(url@),
    ensures
        r@ == encoded_reference(url@),
{
    let mut out: Vec<char> = Vec::new();
    out.push('/');
    out.push('/');
    if let Some(Some(host)) = host_of(url) {
        let h = chars_of(host.as_str());
        push_all(&mut out, &h);
    }
    let path = path_of(url);
    let p = chars_of(path.as_str());
    push_all(&mut out, &p);
    assert(out@ == encoded_reference(url@));
    string_of(&out)
}

/// The reference of the address `url`.
pub fn org_roam_ref(url: &str) -> (reference: String)
    requires
        reference_of(url@) is Some,
    ensures
        Some(reference@) == reference_of(url@),
{
    let encoded = encoded_ref(url);
    percent_decode(encoded.as_str()).unwrap()
}

/// Whether `url` has a reference.
fn has_reference(url: &str) -> (b: bool)
    ensures
        b == reference_of(url@) is Some,
{
    if host_of(url).is_some() {
        let encoded = encoded_ref(url);
        percent_decode(encoded.as_str()).is_some()
    } else {
        false
    }
}

/// The reference of `url`, if it has one.
pub fn try_org_roam_ref(url: &str) -> (reference: Option<String>)
    ensures
        reference.deep_view() == reference_of(url@),
{
    if has_reference(url) {
        Some(org_roam_ref(url))
    } else {
        None
    }
}

} // verus!
