//! The name of the file of a new entry: a time, a slug of the title, and for
//! a title that several documents share a part of the MD5 digest of the
//! address.

use vstd::prelude::*;
use crate::text::{chars_of, is_digit, push_all, slice_of, string_of};

verus! {

/// The most characters that the slug of a title may have in a file name.
pub const MAX_SLUG_LEN: usize = 100;

/// The bytes of the digest that a file name shows.
pub const HASH_BYTES: usize = 4;

/// What `slug::slugify` makes of `title`.
pub uninterp spec fn slugified(title: Seq<char>) -> Seq<char>;

/// The sixteen bytes of the digest that `md5::compute` makes of the UTF-8
/// bytes of `data`.
pub uninterp spec fn md5_digest(data: Seq<char>) -> Seq<u8>;

/// `slug::slugify`.
#[verifier::external_body]
fn slugify(title: &str) -> (slug: String)
    ensures
        slug@ == slugified(title@),
{
    slug::slugify(title)
}

/// `md5::compute` on the bytes of `data`; the result is the array that the
/// `Digest` holds.
#[verifier::external_body]
fn md5_of(data: &str) -> (digest: [u8; 16])
    ensures
        digest@ == md5_digest(data@),
{
    md5::compute(data).0
}

/// Whether `stamp` ends in fourteen digits: the four last digits of a year,
/// and two each of month, day, hour, minute and second.
pub open spec fn is_time_stamp(stamp: Seq<char>) -> bool {
    stamp.len() >= 14 && forall|i: int| stamp.len() - 14 <= i < stamp.len() ==> is_digit(stamp[i])
}

/// `chrono::Local::now`, written with the pattern `%Y%m%d%H%M%S`: the local
/// time of the call. The pattern writes two digits each for month, day,
/// hour, minute and second, and before them the year: its four digits, or,
/// beyond the year 9999, a sign and all its digits.
#[verifier::external_body]
fn local_time_stamp() -> (stamp: String)
    ensures
        is_time_stamp(stamp@),
{
    chrono::Local::now().format("%Y%m%d%H%M%S").to_string()
}

/// The digit that writes `n` in base sixteen, in lower case.
pub open spec fn hex_digit(n: int) -> char {
    if 0 <= n < 10 {
        ((n + 48) as u8) as char
    } else {
        ((n + 87) as u8) as char
    }
}

/// Two digits in base sixteen for each byte, in order.
pub open spec fn hex_of(bytes: Seq<u8>) -> Seq<char> {
    Seq::new(
        2 * bytes.len(),
        |i: int| if i % 2 == 0 {
            hex_digit(bytes[i / 2] as int / 16)
        } else {
            hex_digit(bytes[i / 2] as int % 16)
        },
    )
}

/// The digit that writes `n` in base sixteen.
fn hex_char(n: u8) -> (c: char)
    requires
        n < 16,
    ensures
        c == hex_digit(n as int),
{
    if n < 10 {
        (n + 48) as char
    } else {
        (n + 87) as char
    }
}

/// The first `MAX_SLUG_LEN` characters of the slug of `title`, or all of
/// them if they are fewer.
pub open spec fn short_slug(title: Seq<char>) -> Seq<char> {
    if slugified(title).len() > MAX_SLUG_LEN {
        slugified(title).take(MAX_SLUG_LEN as int)
    } else {
        slugified(title)
    }
}

/// What a file name shows of the address `url`: the first `HASH_BYTES` bytes
/// of its MD5 digest, in base sixteen.
pub open spec fn url_hash(url: Seq<char>) -> Seq<char> {
    hex_of(md5_digest(url).take(HASH_BYTES as int))
}

/// What follows the time in the name of the file of a new entry: a hyphen and
/// the slug of the title; a hyphen and the hash of `url`, if one is given;
/// and `.org`.
pub open spec fn name_tail(title: Seq<char>, url: Option<Seq<char>>) -> Seq<char> {
    seq!['-'] + short_slug(title) + match url {
        Some(u) => seq!['-'] + url_hash(u),
        None => Seq::empty(),
    } + ".org"@
}

/// The name of the file of a new entry that is made at the time `stamp`.
pub open spec fn entry_file_name(stamp: Seq<char>, title: Seq<char>, url: Option<Seq<char>>) -> Seq<
    char,
> {
    stamp + name_tail(title, url)
}

/// What a file name shows of the address `url`.
fn hash_of_url(url: &str) -> (hash: Vec<char>)
    ensures
        hash@ == url_hash(url@),
{
    let digest = md5_of(url);
    let mut hash: Vec<char> = Vec::new();
    let mut i: usize = 0;
    while i < HASH_BYTES
        invariant
            i <= HASH_BYTES,
            digest@.len() == 16,
            hash@ == hex_of(digest@.take(i as int)),
        decreases HASH_BYTES - i,
    {
        let byte: u8 = digest[i];
        let ghost before = hash@;
        hash.push(hex_char(byte / 16));
        hash.push(hex_char(byte % 16));
        assert(hash@ == hex_of(digest@.take(i + 1))) by {
            let now = hex_of(digest@.take(i + 1));
            assert(hash@.len() == now.len());
            assert forall|k: int| 0 <= k < now.len() implies hash@[k] == now[k] by {
                if k < 2 * i {
                    assert(before[k] == hex_of(digest@.take(i as int))[k]);
                    assert(digest@.take(i as int)[k / 2] == digest@.take(i + 1)[k / 2]);
                } else {
                    assert(k / 2 == i);
                    assert(digest@.take(i + 1)[k / 2] == byte);
                }
            }
        }
        i += 1;
    }
    assert(digest@.take(HASH_BYTES as int) == md5_digest(url@).take(HASH_BYTES as int));
    hash
}

/// The name of the file of a new entry that is made at the time `stamp`.
pub fn new_entry_name(stamp: &str, title: &str, url: Option<&str>) -> (name: String)
    ensures
        name@ == entry_file_name(stamp@, title@, url.deep_view()),
{
    let mut out = chars_of(stamp);
    out.push('-');
    let slug = slugify(title);
    let slug_chars = chars_of(slug.as_str());
    if slug_chars.len() > MAX_SLUG_LEN {
        let short = slice_of(&slug_chars, 0, MAX_SLUG_LEN);
        assert(short@ == slugified(title@).take(MAX_SLUG_LEN as int));
        push_all(&mut out, &short);
    } else {
        push_all(&mut out, &slug_chars);
    }
    if let Some(u) = url {
        out.push('-');
        let hash = hash_of_url(u);
        push_all(&mut out, &hash);
    }
    let tail = chars_of(".org");
    push_all(&mut out, &tail);
    assert(out@ == entry_file_name(stamp@, title@, url.deep_view()));
    string_of(&out)
}

/// Whether `name` is the name of the file of a new entry that is made at
/// some time.
pub open spec fn is_entry_name(name: Seq<char>, title: Seq<char>, url: Option<Seq<char>>) -> bool {
    exists|stamp: Seq<char>|
        is_time_stamp(stamp) && name == #[trigger] entry_file_name(stamp, title, url)
}

/// The name of the file of a new entry that is made now. The directory of
/// the file is the caller's to add.
pub fn get_new_entry_filename(title: &str, url: Option<&str>) -> (name: String)
    ensures
        is_entry_name(name@, title@, url.deep_view()),
{
    let stamp = local_time_stamp();
    new_entry_name(stamp.as_str(), title, url)
}

/// Two entries that are made at one time for one title have different file
/// names as soon as the hashes of their addresses differ.
pub proof fn lemma_names_differ_by_hash(
    stamp: Seq<char>,
    title: Seq<char>,
    first: Seq<char>,
    second: Seq<char>,
)
    requires
        url_hash(first) != url_hash(second),
    ensures
        entry_file_name(stamp, title, Some(first)) != entry_file_name(stamp, title, Some(second)),
{
    let head = stamp + seq!['-'] + short_slug(title) + seq!['-'];
    let tail = ".org"@;
    let a = url_hash(first);
    let b = url_hash(second);
    let x = entry_file_name(stamp, title, Some(first));
    let y = entry_file_name(stamp, title, Some(second));
    assert(x =~= head + a + tail);
    assert(y =~= head + b + tail);
    if x == y {
        assert(a.len() == b.len());
        assert forall|i: int| 0 <= i < a.len() implies a[i] == b[i] by {
            assert(x[head.len() + i] == a[i]);
            assert(y[head.len() + i] == b[i]);
        }
        assert(a =~= b);
    }
}

} // verus!
