use org_readwise::fetch::{
    authorization, parse_wait_hint, request_url, wait_seconds, FetchError, FetchState, FetchStep, Response,
    DEFAULT_WAIT_SECONDS, MAX_RETRIES, WAIT_MARGIN_SECONDS,
};
use org_readwise::record::{RawField, RawRecord, RawValue};

fn record(id: &str) -> RawRecord {
    RawRecord { fields: vec![RawField { name: "id".to_string(), value: RawValue::Text(id.to_string()) }] }
}

fn page(ids: &[&str], next: Option<&str>) -> Response {
    Response::Page {
        results: Some(ids.iter().map(|id| record(id)).collect()),
        next_cursor: next.map(|c| c.to_string()),
    }
}

fn ids(state: &FetchState) -> Vec<String> {
    state
        .results
        .iter()
        .map(|r| match &r.fields[0].value {
            RawValue::Text(t) => t.clone(),
            _ => String::new(),
        })
        .collect()
}

#[test]
fn request_url_without_parameters() {
    assert_eq!(request_url(None, None, None), "https://readwise.io/api/v3/list/");
}

#[test]
fn request_url_with_each_parameter() {
    assert_eq!(
        request_url(Some("article"), None, None),
        "https://readwise.io/api/v3/list/?category=article"
    );
    assert_eq!(
        request_url(None, Some("c1"), None),
        "https://readwise.io/api/v3/list/?pageCursor=c1"
    );
    assert_eq!(
        request_url(None, None, Some("2024-01-02T03:04:05+00:00")),
        "https://readwise.io/api/v3/list/?updatedAfter=2024-01-02T03:04:05+00:00"
    );
}

#[test]
fn request_url_with_all_parameters_in_order() {
    assert_eq!(
        request_url(Some("epub"), Some("abc"), Some("2024-01-02T03:04:05Z")),
        "https://readwise.io/api/v3/list/?category=epub&pageCursor=abc&updatedAfter=2024-01-02T03:04:05Z"
    );
    assert_eq!(
        request_url(Some("note"), None, Some("t")),
        "https://readwise.io/api/v3/list/?category=note&updatedAfter=t"
    );
}

#[test]
fn state_names_its_cursor_in_the_url() {
    let mut state = FetchState::new();
    assert_eq!(
        state.request_url(Some("highlight"), None),
        "https://readwise.io/api/v3/list/?category=highlight"
    );
    state.step(page(&["a"], Some("next1")));
    assert_eq!(
        state.request_url(Some("highlight"), Some("u")),
        "https://readwise.io/api/v3/list/?category=highlight&pageCursor=next1&updatedAfter=u"
    );
}

#[test]
fn wait_hint_of_the_documented_body() {
    let body = "{\"detail\":\"Request was throttled. Expected available in 50 seconds.\"}";
    assert_eq!(parse_wait_hint(body), Some(50));
    assert_eq!(wait_seconds(body), 55);
}

#[test]
fn wait_hint_is_what_the_split_chain_gives() {
    for body in [
        "",
        "Expected available in ",
        "Expected available in 7",
        "Expected available in 7 seconds",
        "Expected available in  7 seconds",
        "Expected available in seven seconds",
        "Expected available in 3Expected available in 9 s",
        "xExpected available in 12 Expected available in 9 s",
        "Expected available in +4 s",
        "Expected available in -4 s",
        "expected available in 5 seconds",
        "Expected available in 18446744073709551615 seconds",
        "Expected available in 18446744073709551616 seconds",
        "Expected available in 5\u{a0}seconds",
    ] {
        let expected = body
            .split("Expected available in ")
            .nth(1)
            .and_then(|s| s.split(' ').next())
            .and_then(|n| n.parse::<u64>().ok());
        assert_eq!(parse_wait_hint(body), expected, "{:?}", body);
    }
}

#[test]
fn wait_seconds_adds_the_margin_or_takes_the_default() {
    assert_eq!(WAIT_MARGIN_SECONDS, 5);
    assert_eq!(DEFAULT_WAIT_SECONDS, 60);
    assert_eq!(wait_seconds("Expected available in 0 seconds."), 5);
    assert_eq!(wait_seconds("Expected available in 120 seconds."), 125);
    assert_eq!(wait_seconds("Request was throttled."), 65);
    assert_eq!(wait_seconds("Expected available in soon"), 65);
    assert_eq!(wait_seconds("slow down"), 65);
    assert_eq!(wait_seconds(""), 65);
}

#[test]
fn wait_seconds_stops_at_the_largest_number() {
    assert_eq!(wait_seconds("Expected available in 18446744073709551610 seconds."), u64::MAX);
    assert_eq!(wait_seconds("Expected available in 18446744073709551611 seconds."), u64::MAX);
    assert_eq!(wait_seconds("Expected available in 18446744073709551615 seconds."), u64::MAX);
    assert_eq!(
        wait_seconds("Expected available in 18446744073709551609 seconds."),
        18446744073709551614
    );
}

#[test]
fn new_state_is_empty() {
    let state = FetchState::new();
    assert_eq!(state.cursor, None);
    assert_eq!(state.retries, 0);
    assert!(state.results.is_empty());
}

#[test]
fn pages_are_gathered_until_one_names_no_cursor() {
    let mut state = FetchState::new();
    assert!(matches!(state.step(page(&["a", "b"], Some("c1"))), FetchStep::Request));
    assert_eq!(state.cursor.as_deref(), Some("c1"));
    assert!(matches!(state.step(page(&[], Some("c2"))), FetchStep::Request));
    assert_eq!(state.cursor.as_deref(), Some("c2"));
    assert!(matches!(state.step(page(&["c"], None)), FetchStep::Done));
    assert_eq!(state.cursor, None);
    assert_eq!(ids(&state), vec!["a", "b", "c"]);
}

#[test]
fn throttling_waits_five_times_then_fails() {
    assert_eq!(MAX_RETRIES, 5);
    let mut state = FetchState::new();
    let body = "{\"detail\":\"Request was throttled. Expected available in 9 seconds.\"}";
    for n in 1..=5u32 {
        let step = state.step(Response::Throttled { body: body.to_string() });
        assert!(matches!(step, FetchStep::Wait { seconds: 14 }), "retry {}", n);
        assert_eq!(state.retries, n);
    }
    let step = state.step(Response::Throttled { body: body.to_string() });
    assert!(matches!(step, FetchStep::Fail(FetchError::RateLimited { retries: 5 })));
    assert_eq!(state.retries, 5);
}

#[test]
fn a_page_ends_the_count_of_retries() {
    let mut state = FetchState::new();
    state.step(page(&["a"], Some("c1")));
    for _ in 0..5 {
        state.step(Response::Throttled { body: String::new() });
    }
    assert_eq!(state.retries, 5);
    assert!(matches!(state.step(page(&["b"], Some("c2"))), FetchStep::Request));
    assert_eq!(state.retries, 0);
    let step = state.step(Response::Throttled { body: String::new() });
    assert!(matches!(step, FetchStep::Wait { seconds: 65 }));
    assert_eq!(state.cursor.as_deref(), Some("c2"));
    assert_eq!(ids(&state), vec!["a", "b"]);
}

#[test]
fn another_status_fails_at_once() {
    let mut state = FetchState::new();
    state.step(page(&["a"], Some("c1")));
    let step = state.step(Response::Rejected { status: 500, body: "boom".to_string() });
    match step {
        FetchStep::Fail(FetchError::UnexpectedStatus { status, body }) => {
            assert_eq!(status, 500);
            assert_eq!(body, "boom");
        }
        other => panic!("{:?}", other),
    }
    assert_eq!(state.cursor.as_deref(), Some("c1"));
    assert_eq!(ids(&state), vec!["a"]);
}

#[test]
fn a_page_without_results_fails() {
    let mut state = FetchState::new();
    let step = state.step(Response::Page { results: None, next_cursor: Some("c".to_string()) });
    assert!(matches!(step, FetchStep::Fail(FetchError::NoResults)));
    assert_eq!(state.cursor, None);
    assert!(state.results.is_empty());
}

#[test]
fn authorization_names_the_key() {
    assert_eq!(authorization("abc123"), "Token abc123");
    assert_eq!(authorization(""), "Token ");
}

#[test]
fn a_failed_fetch_says_why() {
    assert_eq!(
        FetchError::RateLimited { retries: 5 }.message(),
        "Still getting rate limited despite 5 retries"
    );
    assert_eq!(
        FetchError::RateLimited { retries: u32::MAX }.message(),
        "Still getting rate limited despite 4294967295 retries"
    );
    assert_eq!(
        FetchError::UnexpectedStatus { status: 503, body: "down".to_string() }.message(),
        "Unexpected status: 503 - down"
    );
    assert_eq!(
        FetchError::UnexpectedStatus { status: 0, body: String::new() }.message(),
        "Unexpected status: 0 - "
    );
    assert_eq!(FetchError::NoResults.message(), "No results found in response");
}
