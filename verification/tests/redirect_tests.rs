use rcurl::materialize::{plan_materialization, terminal_print_action, MaterializePlan, PrintAction};
use rcurl::redirect::{run_redirects, hop_decision, HopDecision, RedirectOutcome, ResponseHead};
use rcurl::urlparse::{parse_url, url_to_string, resolve_location, effective_port};

fn head(status: u16, location: Option<&str>) -> ResponseHead {
    ResponseHead { status, location: location.map(|s| s.to_string()) }
}

fn script(mut first: Vec<ResponseHead>) -> Vec<ResponseHead> {
    while first.len() < 10 {
        first.push(head(200, None));
    }
    first
}

#[test]
fn single_hop_get_passes_status_through() {
    let start = parse_url("http://example.com/").unwrap();
    let rs = script(vec![head(200, None)]);
    let (outcome, exchanges, final_url) = run_redirects(&start, &rs);
    assert!(matches!(outcome, RedirectOutcome::Final { hop: 0 }));
    assert_eq!(exchanges, 1);
    assert_eq!(url_to_string(&final_url), "http://example.com/");
    // no output file, a small valid body: it goes to the terminal as text
    let plan = plan_materialization(false, &None, &Some("12".to_string()));
    assert!(matches!(plan, MaterializePlan::BufferAndPrint));
    assert!(matches!(terminal_print_action(true), PrintAction::PrintBody));
}

#[test]
fn one_redirect_then_final_uses_second_hop() {
    let start = parse_url("https://example.com/").unwrap();
    let rs = script(vec![head(301, Some("https://example.com/new")), head(200, None)]);
    let (outcome, exchanges, final_url) = run_redirects(&start, &rs);
    assert!(matches!(outcome, RedirectOutcome::Final { hop: 1 }));
    assert_eq!(exchanges, 2);
    assert_eq!(url_to_string(&final_url), "https://example.com/new");
}

#[test]
fn redirect_without_location_fails_at_once() {
    let start = parse_url("http://example.com/").unwrap();
    let rs = script(vec![head(302, None)]);
    let (outcome, exchanges, _) = run_redirects(&start, &rs);
    assert!(matches!(outcome, RedirectOutcome::MissingLocation { hop: 0 }));
    assert_eq!(exchanges, 1);
}

#[test]
fn endless_redirects_stop_after_ten_exchanges() {
    let start = parse_url("http://example.com/").unwrap();
    let mut rs = Vec::new();
    for _ in 0..12 {
        rs.push(head(301, Some("/next")));
    }
    let (outcome, exchanges, _) = run_redirects(&start, &rs);
    assert!(matches!(outcome, RedirectOutcome::TooManyRedirects));
    assert_eq!(exchanges, 10);
}

#[test]
fn ninth_redirect_still_followed() {
    let start = parse_url("http://example.com/").unwrap();
    let mut rs = Vec::new();
    for _ in 0..9 {
        rs.push(head(301, Some("/next")));
    }
    rs.push(head(200, None));
    let (outcome, exchanges, _) = run_redirects(&start, &rs);
    assert!(matches!(outcome, RedirectOutcome::Final { hop: 9 }));
    assert_eq!(exchanges, 10);
}

#[test]
fn relative_location_resolved_against_current_url() {
    let start = parse_url("http://example.com/a/b").unwrap();
    let first = resolve_location(&start, "/next").unwrap();
    assert_eq!(url_to_string(&first), "http://example.com/next");
    // the second hop resolves against the URL reached so far
    let second = resolve_location(&first, "sub").unwrap();
    assert_eq!(url_to_string(&second), "http://example.com/sub");
}

#[test]
fn relative_location_keeps_directory_of_current_path() {
    let cur = parse_url("http://example.com/dir/page?x=1").unwrap();
    let next = resolve_location(&cur, "other?y=2").unwrap();
    assert_eq!(url_to_string(&next), "http://example.com/dir/other?y=2");
}

#[test]
fn absolute_location_replaces_everything() {
    let cur = parse_url("http://example.com/a").unwrap();
    let next = resolve_location(&cur, "https://other.net:8443/b").unwrap();
    assert_eq!(url_to_string(&next), "https://other.net:8443/b");
    assert_eq!(effective_port(&next), 8443);
}

#[test]
fn resolving_and_restringifying_is_stable() {
    let cur = parse_url("http://example.com/a/b").unwrap();
    let next = resolve_location(&cur, "/next").unwrap();
    let text = url_to_string(&next);
    let reparsed = parse_url(&text).unwrap();
    assert_eq!(url_to_string(&reparsed), text);
    let again = resolve_location(&reparsed, "third").unwrap();
    assert_eq!(url_to_string(&again), "http://example.com/third");
}

#[test]
fn hop_decision_follows_redirect_classes() {
    let cur = parse_url("http://example.com/").unwrap();
    assert!(matches!(
        hop_decision(&cur, &head(200, None)),
        HopDecision::Finish
    ));
    assert!(matches!(
        hop_decision(&cur, &head(399, Some("/x"))),
        HopDecision::Follow(_)
    ));
    assert!(matches!(
        hop_decision(&cur, &head(400, Some("/x"))),
        HopDecision::Finish
    ));
    assert!(matches!(
        hop_decision(&cur, &head(301, None)),
        HopDecision::MissingLocation
    ));
}
