use zet_live::freshness::{is_fresh, FetchAction, ScheduleFetcher, ScheduleHeaders};
use zet_live::negotiate::{choose_content_type, negotiate, ContentType, NegotiationError};
use zet_live::route::default_route_color;
use zet_live::timeframe::Timeframe;
use zet_live::versioned::Versioned;

#[test]
fn cbor_negotiation() {
    assert_eq!(negotiate(Some("application/cbor")), Ok(ContentType::Cbor));
    assert_eq!(negotiate(Some("text/html")), Err(NegotiationError::NotAcceptable));
}

#[test]
fn negotiation_defaults_and_wildcards() {
    assert_eq!(negotiate(None), Ok(ContentType::Json));
    assert_eq!(negotiate(Some("application/json")), Ok(ContentType::Json));
    assert_eq!(negotiate(Some("*/*")), Ok(ContentType::Json));
    assert_eq!(negotiate(Some("text/html, */*;q=0.1")), Ok(ContentType::Json));
    assert_eq!(negotiate(Some("application/json;q=0.5, application/cbor")), Ok(ContentType::Cbor));
    assert_eq!(negotiate(Some("not a media type")), Err(NegotiationError::NotAcceptable));
}

#[test]
fn choose_from_listed_types() {
    let types = vec!["text/html".to_string(), "application/cbor".to_string(), "application/json".to_string()];
    assert_eq!(choose_content_type(&types, false), Ok(ContentType::Cbor));
    assert_eq!(choose_content_type(&vec!["text/html".to_string()], true), Ok(ContentType::Json));
    assert_eq!(choose_content_type(&vec![], false), Err(NegotiationError::NotAcceptable));
}

#[test]
fn conditional_schedule() {
    let date = Some("Mon, 01 Jan 2024 00:00:00 GMT");
    let mut fetcher = ScheduleFetcher::new(120_000);
    let first = ScheduleHeaders::from_header_values(date, Some("\"A\""));
    assert_eq!(first.last_modified, Some(1_704_067_200));
    assert_eq!(fetcher.decide(&first), FetchAction::Parse);
    assert_eq!(fetcher.on_published(first), 120_000);
    let second = ScheduleHeaders::from_header_values(date, Some("\"A\""));
    assert_eq!(fetcher.decide(&second), FetchAction::Skip);
    assert_eq!(fetcher.on_skipped(), 120_000);
    let third = ScheduleHeaders::from_header_values(date, Some("\"B\""));
    assert_eq!(fetcher.decide(&third), FetchAction::Parse);
    assert_eq!(fetcher.on_failed(), 24_000);
}

#[test]
fn freshness_table() {
    let h = |m: Option<i64>, e: Option<&str>| ScheduleHeaders { last_modified: m, etag: e.map(str::to_string) };
    assert!(is_fresh(&None, &h(Some(1), Some("a"))));
    assert!(!is_fresh(&Some(h(Some(5), Some("a"))), &h(Some(5), Some("a"))));
    assert!(!is_fresh(&Some(h(Some(5), Some("a"))), &h(Some(4), Some("a"))));
    assert!(is_fresh(&Some(h(Some(5), Some("a"))), &h(Some(6), Some("a"))));
    assert!(is_fresh(&Some(h(Some(5), Some("a"))), &h(Some(5), Some("b"))));
    assert!(is_fresh(&Some(h(None, Some("a"))), &h(Some(5), Some("a"))));
    assert!(is_fresh(&Some(h(Some(5), Some("a"))), &h(None, Some("a"))));
    assert!(!is_fresh(&Some(h(Some(5), None)), &h(Some(5), None)));
}

#[test]
fn unparsable_last_modified_counts_as_absent() {
    let h = ScheduleHeaders::from_header_values(Some("yesterday"), None);
    assert_eq!(h.last_modified, None);
    assert_eq!(h.etag, None);
}

#[test]
fn durations() {
    assert_eq!(Timeframe::parse_str("2 seconds"), Some(Timeframe { seconds: 2 }));
    assert_eq!(Timeframe::parse_str("2 minutes"), Some(Timeframe { seconds: 120 }));
    assert_eq!(Timeframe::parse_str("5mins"), Some(Timeframe { seconds: 300 }));
    assert_eq!(Timeframe::parse_str("4h"), Some(Timeframe { seconds: 14_400 }));
    assert_eq!(Timeframe::parse_str("1d"), Some(Timeframe { seconds: 86_400 }));
    assert_eq!(Timeframe::parse_str("2 weeks"), Some(Timeframe { seconds: 1_209_600 }));
    assert_eq!(Timeframe::parse_str("3 months"), Some(Timeframe { seconds: 7_776_000 }));
    assert_eq!(Timeframe::parse_str("6s"), Some(Timeframe { seconds: 6 }));
    assert_eq!(Timeframe::parse_str("s"), None);
    assert_eq!(Timeframe::parse_str("3 fortnights"), None);
    assert_eq!(Timeframe::parse_str("99999999999999999999 s"), None);
    assert_eq!(Timeframe::parse_str("18446744073709551615 s"), Some(Timeframe { seconds: u64::MAX }));
    assert_eq!(Timeframe::parse_str("18446744073709551615 min"), None);
}

#[test]
fn versioned_envelopes() {
    let v = Versioned::new(1, "d");
    assert_eq!((v.version, v.timestamp, v.data), (1, None, "d"));
    let v = v.with_timestamp(9);
    assert_eq!(v.timestamp, Some(9));
    let v = Versioned::new_with_timestamp(2, 3, 4u8);
    assert_eq!((v.version, v.timestamp, v.data), (2, Some(3), 4));
    let v = Versioned::new_now(1, ());
    assert!(v.timestamp.unwrap() > 1_600_000_000);
    assert!(Versioned::new(1, ()).with_timestamp_now().timestamp.is_some());
}

#[test]
fn default_colors() {
    assert_eq!(default_route_color(), "FFFFFF");
    assert_eq!(zet_live::route::default_route_text_color(), "000000");
}
