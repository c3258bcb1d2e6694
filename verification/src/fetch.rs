//! The remote fetcher, as a machine that decides and does no I/O.
//!
//! The caller sends the request that `FetchState::request_url` names, hands
//! the answer to `FetchState::step`, and does what the step says: ask again,
//! wait and ask again, stop with all records, or stop with an error.

use vstd::prelude::*;
use crate::record::{RawFieldView, RawRecord};
use crate::text::{
    chars_of, decimal_text, find_char, find_from, first_occurrence, index_of_char, joined,
    lemma_joined_push, parse_u64, parsed_u64, push_all, push_decimal, slice_of, string_of,
};

verus! {

/// How often one page is asked for again after the remote throttled it.
pub const MAX_RETRIES: u32 = 5;

/// The seconds to wait when the remote names none.
pub const DEFAULT_WAIT_SECONDS: u64 = 60;

/// The seconds added to the wait that the remote names.
pub const WAIT_MARGIN_SECONDS: u64 = 5;

/// The address of the listing, without a query.
pub open spec fn list_endpoint() -> Seq<char> {
    "https://readwise.io/api/v3/list/"@
}

/// `key` followed by `value`, if there is a value.
pub open spec fn query_part(key: Seq<char>, value: Option<Seq<char>>) -> Seq<Seq<char>> {
    match value {
        Some(v) => seq![key + v],
        None => Seq::empty(),
    }
}

/// The parts of the query of a request, in order.
pub open spec fn query_parts(
    category: Option<Seq<char>>,
    cursor: Option<Seq<char>>,
    updated_after: Option<Seq<char>>,
) -> Seq<Seq<char>> {
    query_part("category="@, category) + query_part("pageCursor="@, cursor) + query_part(
        "updatedAfter="@,
        updated_after,
    )
}

/// The listing, and behind a question mark the parts with `&` between them,
/// if there is any part.
pub open spec fn url_with_query(parts: Seq<Seq<char>>) -> Seq<char> {
    if parts.len() == 0 {
        list_endpoint()
    } else {
        list_endpoint() + seq!['?'] + joined(parts, seq!['&'])
    }
}

/// The address to ask for one page of the listing.
pub open spec fn request_url_of(
    category: Option<Seq<char>>,
    cursor: Option<Seq<char>>,
    updated_after: Option<Seq<char>>,
) -> Seq<char> {
    url_with_query(query_parts(category, cursor, updated_after))
}

/// Appends `key` and `value` to an address that holds `parts` already.
fn push_query_part(
    out: &mut Vec<char>,
    Ghost(parts): Ghost<Seq<Seq<char>>>,
    first: &mut bool,
    key: &str,
    value: Option<&str>,
)
    requires
        old(out)@ == url_with_query(parts),
        *old(first) == (parts.len() == 0),
    ensures
        final(out)@ == url_with_query(parts + query_part(key@, value.deep_view())),
        *final(first) == ((parts + query_part(key@, value.deep_view())).len() == 0),
{
    if let Some(v) = value {
        if *first {
            out.push('?');
        } else {
            out.push('&');
        }
        *first = false;
        let k = chars_of(key);
        push_all(out, &k);
        let w = chars_of(v);
        push_all(out, &w);
        proof {
            lemma_joined_push(parts, key@ + v@, seq!['&']);
            assert(parts + query_part(key@, value.deep_view()) == parts.push(key@ + v@));
            assert(out@ == url_with_query(parts.push(key@ + v@)));
        }
    } else {
        assert(parts + query_part(key@, value.deep_view()) == parts);
    }
}

/// The address to ask for one page of the listing.
pub fn request_url(category: Option<&str>, cursor: Option<&str>, updated_after: Option<&str>) -> (url:
    String)
    ensures
        url@ == request_url_of(
            category.deep_view(),
            cursor.deep_view(),
            updated_after.deep_view(),
        ),
{
    let mut out = chars_of("https://readwise.io/api/v3/list/");
    let mut first = true;
    let ghost p0 = Seq::<Seq<char>>::empty();
    let ghost p1 = p0 + query_part("category="@, category.deep_view());
    let ghost p2 = p1 + query_part("pageCursor="@, cursor.deep_view());
    push_query_part(&mut out, Ghost(p0), &mut first, "category=", category);
    push_query_part(&mut out, Ghost(p1), &mut first, "pageCursor=", cursor);
    push_query_part(&mut out, Ghost(p2), &mut first, "updatedAfter=", updated_after);
    proof {
        assert(p1 == query_part("category="@, category.deep_view()));
    }
    string_of(&out)
}

/// The value of the header `Authorization` of a request: the word `Token`,
/// a space, and the key of the account.
pub open spec fn authorization_of(api_key: Seq<char>) -> Seq<char> {
    "Token "@ + api_key
}

/// The value of the header `Authorization` of a request.
pub fn authorization(api_key: &str) -> (value: String)
    ensures
        value@ == authorization_of(api_key@),
{
    crate::text::append_text("Token ", api_key)
}

/// The words before the seconds in the body of a throttled answer.
pub open spec fn wait_marker() -> Seq<char> {
    "Expected available in "@
}

/// The text in which a throttled answer names its seconds: what follows the
/// first marker, up to the next marker and up to the first space.
pub open spec fn wait_token(body: Seq<char>) -> Option<Seq<char>> {
    match first_occurrence(body, wait_marker(), 0) {
        None => None,
        Some(i) => {
            let rest = body.skip(i + wait_marker().len());
            let piece = match first_occurrence(rest, wait_marker(), 0) {
                Some(j) => rest.take(j),
                None => rest,
            };
            Some(piece.take(index_of_char(piece, ' ')))
        },
    }
}

/// The seconds that the body of a throttled answer names.
pub open spec fn wait_hint(body: Seq<char>) -> Option<u64> {
    match wait_token(body) {
        Some(token) => parsed_u64(token),
        None => None,
    }
}

/// The seconds to wait after a throttled answer: those that it names, or the
/// default if it names none, and the margin; at most `u64::MAX`.
pub open spec fn wait_seconds_of(body: Seq<char>) -> u64 {
    match wait_hint(body) {
        Some(n) => if n + WAIT_MARGIN_SECONDS <= u64::MAX {
            (n + WAIT_MARGIN_SECONDS) as u64
        } else {
            u64::MAX
        },
        None => (DEFAULT_WAIT_SECONDS + WAIT_MARGIN_SECONDS) as u64,
    }
}

/// The seconds that the body of a throttled answer names.
pub fn parse_wait_hint(body: &str) -> (r: Option<u64>)
    ensures
        r == wait_hint(body@),
{
    let text = chars_of(body);
    let marker = chars_of("Expected available in ");
    match find_from(&text, &marker, 0) {
        None => None,
        Some(i) => {
            let rest = slice_of(&text, i + marker.len(), text.len());
            assert(rest@ == text@.skip(i + marker@.len()));
            let piece = match find_from(&rest, &marker, 0) {
                Some(j) => {
                    let piece = slice_of(&rest, 0, j);
                    assert(piece@ == rest@.take(j as int));
                    piece
                },
                None => rest,
            };
            assert(piece@.skip(0) == piece@);
            let end = find_char(&piece, ' ', 0);
            let token = slice_of(&piece, 0, end);
            assert(token@ == piece@.take(index_of_char(piece@, ' ')));
            parse_u64(&token)
        },
    }
}

/// The seconds to wait after a throttled answer with this body.
pub fn wait_seconds(body: &str) -> (r: u64)
    ensures
        r == wait_seconds_of(body@),
{
    match parse_wait_hint(body) {
        Some(n) => if n <= u64::MAX - WAIT_MARGIN_SECONDS {
            n + WAIT_MARGIN_SECONDS
        } else {
            u64::MAX
        },
        None => DEFAULT_WAIT_SECONDS + WAIT_MARGIN_SECONDS,
    }
}

/// What the remote answered to a request for one page.
#[derive(Debug)]
pub enum Response {
    /// Success. `results` is the list of records of the page, if the body has
    /// one; `next_cursor` is the cursor of the next page, if the body has one.
    Page { results: Option<Vec<RawRecord>>, next_cursor: Option<String> },
    /// Too many requests.
    Throttled { body: String },
    /// Any other status.
    Rejected { status: u16, body: String },
}

/// What a `Response` stands for.
pub enum ResponseView {
    Page { results: Option<Seq<Seq<RawFieldView>>>, next_cursor: Option<Seq<char>> },
    Throttled { body: Seq<char> },
    Rejected { status: u16, body: Seq<char> },
}

impl DeepView for Response {
    type V = ResponseView;

    open spec fn deep_view(&self) -> ResponseView {
        match self {
            Response::Page { results, next_cursor } => ResponseView::Page {
                results: results.deep_view(),
                next_cursor: next_cursor.deep_view(),
            },
            Response::Throttled { body } => ResponseView::Throttled { body: body@ },
            Response::Rejected { status, body } => ResponseView::Rejected {
                status: *status,
                body: body@,
            },
        }
    }
}

impl View for Response {
    type V = ResponseView;

    open spec fn view(&self) -> ResponseView {
        self.deep_view()
    }
}

/// Why a fetch ended without its records.
#[derive(Debug)]
pub enum FetchError {
    /// The remote still throttled the page after this many retries.
    RateLimited { retries: u32 },
    /// The remote answered with a status that is neither success nor
    /// throttling.
    UnexpectedStatus { status: u16, body: String },
    /// The body of a successful answer held no list of records.
    NoResults,
}

/// What a `FetchError` stands for.
pub enum FetchErrorView {
    RateLimited { retries: u32 },
    UnexpectedStatus { status: u16, body: Seq<char> },
    NoResults,
}

impl DeepView for FetchError {
    type V = FetchErrorView;

    open spec fn deep_view(&self) -> FetchErrorView {
        match self {
            FetchError::RateLimited { retries } => FetchErrorView::RateLimited {
                retries: *retries,
            },
            FetchError::UnexpectedStatus { status, body } => FetchErrorView::UnexpectedStatus {
                status: *status,
                body: body@,
            },
            FetchError::NoResults => FetchErrorView::NoResults,
        }
    }
}

impl View for FetchError {
    type V = FetchErrorView;

    open spec fn view(&self) -> FetchErrorView {
        self.deep_view()
    }
}

/// What the user is told of a failed fetch.
pub open spec fn message_of(error: FetchErrorView) -> Seq<char> {
    match error {
        FetchErrorView::RateLimited { retries } => "Still getting rate limited despite "@
            + decimal_text(retries as nat) + " retries"@,
        FetchErrorView::UnexpectedStatus { status, body } => "Unexpected status: "@
            + decimal_text(status as nat) + " - "@ + body,
        FetchErrorView::NoResults => "No results found in response"@,
    }
}

impl FetchError {
    /// What the user is told of this error.
    pub fn message(&self) -> (text: String)
        ensures
            text@ == message_of(self@),
    {
        match self {
            FetchError::RateLimited { retries } => {
                let mut out = chars_of("Still getting rate limited despite ");
                push_decimal(&mut out, *retries as u64);
                let tail = chars_of(" retries");
                push_all(&mut out, &tail);
                string_of(&out)
            },
            FetchError::UnexpectedStatus { status, body } => {
                let mut out = chars_of("Unexpected status: ");
                push_decimal(&mut out, *status as u64);
                let dash = chars_of(" - ");
                push_all(&mut out, &dash);
                let rest = chars_of(body.as_str());
                push_all(&mut out, &rest);
                string_of(&out)
            },
            FetchError::NoResults => "No results found in response".to_owned(),
        }
    }
}

/// What the caller does next.
#[derive(Debug)]
pub enum FetchStep {
    /// Ask for the page that the state now names.
    Request,
    /// Wait this many seconds, then ask for the same page again.
    Wait { seconds: u64 },
    /// Stop: the state holds every record.
    Done,
    /// Stop: the fetch failed.
    Fail(FetchError),
}

/// What a `FetchStep` stands for.
pub enum FetchStepView {
    Request,
    Wait { seconds: u64 },
    Done,
    Fail(FetchErrorView),
}

impl DeepView for FetchStep {
    type V = FetchStepView;

    open spec fn deep_view(&self) -> FetchStepView {
        match self {
            FetchStep::Request => FetchStepView::Request,
            FetchStep::Wait { seconds } => FetchStepView::Wait { seconds: *seconds },
            FetchStep::Done => FetchStepView::Done,
            FetchStep::Fail(e) => FetchStepView::Fail(e@),
        }
    }
}

impl View for FetchStep {
    type V = FetchStepView;

    open spec fn view(&self) -> FetchStepView {
        self.deep_view()
    }
}

/// Where a fetch stands: the cursor of the page to ask for, how often that
/// page was asked for again, and the records of the pages before it.
#[derive(Debug)]
pub struct FetchState {
    pub cursor: Option<String>,
    pub retries: u32,
    pub results: Vec<RawRecord>,
}

/// What a `FetchState` stands for.
pub struct FetchStateView {
    pub cursor: Option<Seq<char>>,
    pub retries: u32,
    pub results: Seq<Seq<RawFieldView>>,
}

impl DeepView for FetchState {
    type V = FetchStateView;

    open spec fn deep_view(&self) -> FetchStateView {
        FetchStateView {
            cursor: self.cursor.deep_view(),
            retries: self.retries,
            results: self.results.deep_view(),
        }
    }
}

impl View for FetchState {
    type V = FetchStateView;

    open spec fn view(&self) -> FetchStateView {
        self.deep_view()
    }
}

/// The state after an answer, and what the caller does next.
///
/// A page with records adds them, names the next page and ends the count of
/// retries; it is the last page if it names no cursor. A throttled answer
/// asks for a wait until the page was asked for again `MAX_RETRIES` times.
/// Everything else fails the fetch and leaves the state as it was.
pub open spec fn step_of(state: FetchStateView, response: ResponseView) -> (
    FetchStateView,
    FetchStepView,
) {
    match response {
        ResponseView::Page { results: Some(records), next_cursor } => (
            FetchStateView {
                cursor: next_cursor,
                retries: 0,
                results: state.results + records,
            },
            if next_cursor is Some {
                FetchStepView::Request
            } else {
                FetchStepView::Done
            },
        ),
        ResponseView::Page { results: None, next_cursor } => (
            state,
            FetchStepView::Fail(FetchErrorView::NoResults),
        ),
        ResponseView::Throttled { body } => if state.retries >= MAX_RETRIES {
            (state, FetchStepView::Fail(FetchErrorView::RateLimited { retries: state.retries }))
        } else {
            (
                FetchStateView { retries: (state.retries + 1) as u32, ..state },
                FetchStepView::Wait { seconds: wait_seconds_of(body) },
            )
        },
        ResponseView::Rejected { status, body } => (
            state,
            FetchStepView::Fail(FetchErrorView::UnexpectedStatus { status, body }),
        ),
    }
}

impl FetchState {
    /// A fetch is well formed while it has not used more retries than it may.
    pub open spec fn wf(&self) -> bool {
        self.retries <= MAX_RETRIES
    }

    /// The state before the first request: no cursor, no retry, no record.
    pub fn new() -> (state: FetchState)
        ensures
            state.wf(),
            state@ == (FetchStateView {
                cursor: None,
                retries: 0,
                results: Seq::empty(),
            }),
    {
        let state = FetchState { cursor: None, retries: 0, results: Vec::new() };
        assert(state.results.deep_view() == Seq::<Seq<RawFieldView>>::empty());
        state
    }

    /// The address of the page to ask for.
    pub fn request_url(&self, category: Option<&str>, updated_after: Option<&str>) -> (url:
        String)
        ensures
            url@ == request_url_of(
                category.deep_view(),
                self@.cursor,
                updated_after.deep_view(),
            ),
    {
        match &self.cursor {
            Some(c) => request_url(category, Some(c.as_str()), updated_after),
            None => request_url(category, None, updated_after),
        }
    }

    /// Takes the answer to the request for the current page.
    pub fn step(&mut self, response: Response) -> (next: FetchStep)
        requires
            old(self).wf(),
        ensures
            final(self).wf(),
            (final(self)@, next@) == step_of(old(self)@, response@),
    {
        match response {
            Response::Page { results: Some(mut records), next_cursor } => {
                let ghost before = self.results.deep_view();
                let ghost added = records.deep_view();
                self.results.append(&mut records);
                assert(self.results.deep_view() == before + added);
                let more = next_cursor.is_some();
                self.cursor = next_cursor;
                self.retries = 0;
                if more {
                    FetchStep::Request
                } else {
                    FetchStep::Done
                }
            },
            Response::Page { results: None, next_cursor } => FetchStep::Fail(
                FetchError::NoResults,
            ),
            Response::Throttled { body } => {
                if self.retries >= MAX_RETRIES {
                    FetchStep::Fail(FetchError::RateLimited { retries: self.retries })
                } else {
                    self.retries = self.retries + 1;
                    FetchStep::Wait { seconds: wait_seconds(body.as_str()) }
                }
            },
            Response::Rejected { status, body } => FetchStep::Fail(
                FetchError::UnexpectedStatus { status, body },
            ),
        }
    }
}

} // verus!
