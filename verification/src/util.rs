//! Cleaning the address of a document of what does not belong to its
//! identity: the fragment, and the query parameters that no rule keeps.

use vstd::prelude::*;
use crate::settings::{QueryRule, QueryRuleView};
use crate::text::{chars_of, ends_with, has_suffix, same_text};

verus! {

/// What `Url::parse` makes of `url`: `None` where it reports an error; else
/// the `host_str()` of the parsed address, which is `None` for an address
/// without a host.
pub uninterp spec fn url_host(url: Seq<char>) -> Option<Option<Seq<char>>>;

/// The `path()` of the address that `Url::parse` makes of `url`.
pub uninterp spec fn url_path(url: Seq<char>) -> Seq<char>;

/// The `query_pairs()` of the address that `Url::parse` makes of `url`: the
/// names and values of its query, decoded, in order.
pub uninterp spec fn url_query_pairs(url: Seq<char>) -> Seq<(Seq<char>, Seq<char>)>;

/// The address that `Url::parse` makes of `url`, written out once its query
/// and its fragment are taken away.
pub uninterp spec fn url_without_query(url: Seq<char>) -> Seq<char>;

/// The address that `Url::parse` makes of `url`, written out once its query
/// is replaced by the encoded `pairs` and its fragment is taken away.
pub uninterp spec fn url_with_pairs(url: Seq<char>, pairs: Seq<(Seq<char>, Seq<char>)>) -> Seq<
    char,
>;

/// Whether `url` is an address: whether `Url::parse` accepts it.
pub open spec fn is_url(url: Seq<char>) -> bool {
    url_host(url) is Some
}

/// `Url::parse`, and `Url::host_str` on the address it returned.
#[verifier::external_body]
pub(crate) fn host_of(url: &str) -> (host: Option<Option<String>>)
    ensures
        host.deep_view() == url_host(url@),
{
    url::Url::parse(url).ok().map(|u| u.host_str().map(|h| h.to_string()))
}

/// `Url::path` on the address that `Url::parse` returns for `url`.
#[verifier::external_body]
pub(crate) fn path_of(url: &str) -> (path: String)
    requires
        is_url(url@),
    ensures
        path@ == url_path(url@),
{
    url::Url::parse(url).unwrap().path().to_string()
}

/// `Url::query_pairs` on the address that `Url::parse` returns for `url`,
/// each pair as two owned texts.
#[verifier::external_body]
fn query_pairs_of(url: &str) -> (pairs: Vec<(String, String)>)
    requires
        is_url(url@),
    ensures
        pairs.deep_view() == url_query_pairs(url@),
{
    url::Url::parse(url).unwrap().query_pairs().into_owned().collect()
}

/// `Url::set_query(None)`, then `Url::set_fragment(None)`, on the address
/// that `Url::parse` returns for `url`; the result is that address written
/// out.
#[verifier::external_body]
fn without_query(url: &str) -> (cleaned: String)
    requires
        is_url(url@),
    ensures
        cleaned@ == url_without_query(url@),
{
    let mut parsed = url::Url::parse(url).unwrap();
    parsed.set_query(None);
    parsed.set_fragment(None);
    parsed.to_string()
}

/// `Url::query_pairs_mut` on the address that `Url::parse` returns for `url`:
/// `clear()`, then `extend_pairs(pairs)`, which appends each pair as
/// `append_pair` does; then `Url::set_fragment(None)`. The result is that
/// address written out.
#[verifier::external_body]
fn with_query_pairs(url: &str, pairs: &Vec<(String, String)>) -> (cleaned: String)
    requires
        is_url(url@),
    ensures
        cleaned@ == url_with_pairs(url@, pairs.deep_view()),
{
    let mut parsed = url::Url::parse(url).unwrap();
    parsed.query_pairs_mut().clear().extend_pairs(pairs);
    parsed.set_fragment(None);
    parsed.to_string()
}

/// The host of an address as a text: empty where the address has none.
pub open spec fn host_text(url: Seq<char>) -> Seq<char> {
    match url_host(url) {
        Some(Some(host)) => host,
        _ => Seq::empty(),
    }
}

/// The first of `rules` whose domain the host ends with.
pub open spec fn rule_for(rules: Seq<QueryRuleView>, host: Seq<char>) -> Option<QueryRuleView>
    decreases rules.len(),
{
    if rules.len() == 0 {
        None
    } else if has_suffix(host, rules[0].domain) {
        Some(rules[0])
    } else {
        rule_for(rules.skip(1), host)
    }
}

/// The pairs whose name is one of `params`, in order.
pub open spec fn kept_pairs(pairs: Seq<(Seq<char>, Seq<char>)>, params: Seq<Seq<char>>) -> Seq<
    (Seq<char>, Seq<char>),
> {
    pairs.filter(|pair: (Seq<char>, Seq<char>)| params.contains(pair.0))
}

/// The parameters of `url` that the first rule for its host keeps: none, if
/// no rule is for its host.
pub open spec fn kept_query(url: Seq<char>, rules: Seq<QueryRuleView>) -> Seq<
    (Seq<char>, Seq<char>),
> {
    match rule_for(rules, host_text(url)) {
        Some(rule) => kept_pairs(url_query_pairs(url), rule.params),
        None => Seq::empty(),
    }
}

/// The address `url` without its fragment and without its query, but for
/// the parameters that the first rule for its host keeps. Where none is
/// kept, the address has no query at all.
pub open spec fn cleaned_url(url: Seq<char>, rules: Seq<QueryRuleView>) -> Seq<char> {
    if kept_query(url, rules).len() == 0 {
        url_without_query(url)
    } else {
        url_with_pairs(url, kept_query(url, rules))
    }
}

/// Whether `list` holds the text `s`.
pub fn contains_text(list: &Vec<String>, s: &str) -> (b: bool)
    ensures
        b == list.deep_view().contains(s@),
{
    let mut i: usize = 0;
    while i < list.len()
        invariant
            i <= list.len(),
            forall|j: int| 0 <= j < i ==> list.deep_view()[j] != s@,
        decreases list.len() - i,
    {
        if same_text(list[i].as_str(), s) {
            assert(list.deep_view()[i as int] == s@);
            return true;
        }
        i += 1;
    }
    false
}

/// The first of `rules` whose domain `host` ends with.
fn find_rule<'a>(rules: &'a Vec<QueryRule>, host: &str) -> (r: Option<&'a QueryRule>)
    ensures
        r.deep_view() == rule_for(rules.deep_view(), host@),
{
    let host_chars = chars_of(host);
    let mut i: usize = 0;
    assert(rules.deep_view().skip(0) == rules.deep_view());
    while i < rules.len()
        invariant
            i <= rules.len(),
            host_chars@ == host@,
            rule_for(rules.deep_view(), host@) == rule_for(
                rules.deep_view().skip(i as int),
                host@,
            ),
        decreases rules.len() - i,
    {
        assert(rules.deep_view().skip(i as int)[0] == rules@[i as int]@);
        assert(rules.deep_view().skip(i as int).skip(1) == rules.deep_view().skip(i + 1));
        let domain = chars_of(rules[i].domain.as_str());
        if ends_with(&host_chars, &domain) {
            return Some(&rules[i]);
        }
        i += 1;
    }
    None
}

/// The pairs whose name is one of `params`, in order.
fn keep_pairs(pairs: &Vec<(String, String)>, params: &Vec<String>) -> (kept: Vec<
    (String, String),
>)
    ensures
        kept.deep_view() == kept_pairs(pairs.deep_view(), params.deep_view()),
{
    let ghost all = pairs.deep_view();
    let ghost keep = |pair: (Seq<char>, Seq<char>)| params.deep_view().contains(pair.0);
    let mut kept: Vec<(String, String)> = Vec::new();
    let mut i: usize = 0;
    proof {
        reveal(Seq::filter);
        assert(all.take(0).filter(keep) == Seq::<(Seq<char>, Seq<char>)>::empty());
    }
    while i < pairs.len()
        invariant
            i <= pairs.len(),
            all == pairs.deep_view(),
            keep == |pair: (Seq<char>, Seq<char>)| params.deep_view().contains(pair.0),
            kept.deep_view() == all.take(i as int).filter(keep),
        decreases pairs.len() - i,
    {
        proof {
            all.take(i as int).lemma_filter_push(all[i as int], keep);
            assert(all.take(i + 1) == all.take(i as int).push(all[i as int]));
        }
        if contains_text(params, pairs[i].0.as_str()) {
            let ghost before = kept.deep_view();
            let pair = (pairs[i].0.clone(), pairs[i].1.clone());
            kept.push(pair);
            assert(kept.deep_view() == before.push(all[i as int]));
        }
        i += 1;
    }
    assert(all.take(i as int) == all);
    kept
}

/// The address `url` without its fragment and without its query, but for
/// the parameters that the first rule for its host keeps.
pub fn clean_url(url: &str, rules: &Vec<QueryRule>) -> (cleaned: String)
    requires
        is_url(url@),
    ensures
        cleaned@ == cleaned_url(url@, rules.deep_view()),
{
    let host = match host_of(url) {
        Some(Some(h)) => h,
        _ => String::new(),
    };
    match find_rule(rules, host.as_str()) {
        Some(rule) => {
            let pairs = query_pairs_of(url);
            let kept = keep_pairs(&pairs, &rule.params);
            if kept.len() == 0 {
                without_query(url)
            } else {
                with_query_pairs(url, &kept)
            }
        },
        None => without_query(url),
    }
}

/// The cleaned address, if `url` is an address.
pub fn try_clean_url(url: &str, rules: &Vec<QueryRule>) -> (cleaned: Option<String>)
    ensures
        cleaned.deep_view() == if is_url(url@) {
            Some(cleaned_url(url@, rules.deep_view()))
        } else {
            None
        },
{
    if host_of(url).is_some() {
        Some(clean_url(url, rules))
    } else {
        None
    }
}

} // verus!
