use ntex_h2_bridge::caching::{Age, CacheControl, CacheFlags, Header, InvalidAgeValue};
use ntex_h2_bridge::duration::Duration;
use ntex_h2_bridge::quality::Quality;

#[test]
fn cache_control_max_age_only() {
    let c = CacheControl::new().set_max_age(Duration::from_secs(60));
    let (values, _) = c.build();
    assert_eq!(values, vec!["max-age=60".to_string()]);
}

#[test]
fn cache_control_flags_then_directive() {
    let c = CacheControl::new()
        .set_flag(CacheFlags::no_cache() | CacheFlags::private())
        .set_max_age(Duration::from_secs(30));
    let (values, back) = c.build();
    assert_eq!(values, vec!["no-cache".to_string(), "private".to_string(), "max-age=30".to_string()]);
    assert_eq!(values.join(", "), "no-cache, private, max-age=30");
    assert!(back == c);
}

#[test]
fn cache_control_directive_priority() {
    let c = CacheControl::new()
        .set_min_fresh(Duration::from_secs(5))
        .set_max_stale(Duration::from_secs(4))
        .set_s_maxage(Duration::from_secs(120));
    assert_eq!(c.build().0, vec!["s-maxage=120".to_string()]);
    let c = CacheControl::new()
        .set_min_fresh(Duration::from_secs(5))
        .set_stale_if_error(Duration::from_secs(9));
    assert_eq!(c.build().0, vec!["stale-if-error=9".to_string()]);
    let c = CacheControl::new().set_stale_while_revalidate(Duration::from_secs(7));
    assert_eq!(c.build().0, vec!["stale-while-revalidate=7".to_string()]);
    let c = CacheControl::new().set_min_fresh(Duration::from_secs(0));
    assert_eq!(c.build().0, vec!["min-fresh=0".to_string()]);
    let c = CacheControl::new().set_max_stale(Duration::from_secs(18446744073709551615));
    assert_eq!(c.build().0, vec!["max-stale=18446744073709551615".to_string()]);
}

#[test]
fn cache_control_all_flags_in_order() {
    let all = CacheFlags::only_if_cached()
        | CacheFlags::immutable()
        | CacheFlags::no_transform()
        | CacheFlags::must_understand()
        | CacheFlags::public()
        | CacheFlags::private()
        | CacheFlags::no_store()
        | CacheFlags::proxy_revalidate()
        | CacheFlags::must_revalidate()
        | CacheFlags::no_cache();
    let c = CacheControl::new().set_flag(all);
    let expected: Vec<String> = [
        "no-cache",
        "must-revalidate",
        "proxy-revalidate",
        "no-store",
        "private",
        "public",
        "must-understand",
        "no-transform",
        "immutable",
        "only-if-cached",
    ]
    .iter()
    .map(|s| s.to_string())
    .collect();
    assert_eq!(c.build().0, expected);
}

#[test]
fn cache_control_empty_builds_nothing() {
    assert!(CacheControl::new().build().0.is_empty());
    assert_eq!(CacheControl::get_headername(), "cache-control");
}

#[test]
fn cache_control_flag_queries() {
    let c = CacheControl::new();
    assert!(c.has_flag(CacheFlags::empty()));
    assert!(!c.has_flag(CacheFlags::public()));
    let c = c.set_flag(CacheFlags::public()).set_flag(CacheFlags::immutable());
    assert!(c.has_flag(CacheFlags::public()));
    assert!(c.has_flag(CacheFlags::public() | CacheFlags::immutable()));
    assert!(!c.has_flag(CacheFlags::empty()));
    assert!(c.get_flag() == CacheFlags(32 | 256));
    let c = c.remove_flag(CacheFlags::public());
    assert!(!c.has_flag(CacheFlags::public()));
    assert!(c.has_flag(CacheFlags::immutable()));
    assert_eq!(c.build().0, vec!["immutable".to_string()]);
}

#[test]
fn cache_control_getters() {
    let c = CacheControl::new()
        .set_max_age(Duration::from_secs(1))
        .set_s_maxage(Duration::from_secs(2))
        .set_stale_while_revalidate(Duration::from_secs(3))
        .set_stale_if_error(Duration::from_secs(4))
        .set_max_stale(Duration::from_secs(5))
        .set_min_fresh(Duration::from_secs(6));
    assert_eq!(c.get_max_age(), Some(Duration::from_secs(1)));
    assert_eq!(c.get_s_maxage(), Some(Duration::from_secs(2)));
    assert_eq!(c.get_stale_while_revalidate(), Some(Duration::from_secs(3)));
    assert_eq!(c.get_stale_if_error(), Some(Duration::from_secs(4)));
    assert_eq!(c.get_max_stale(), Some(Duration::from_secs(5)));
    assert_eq!(c.get_min_fresh(), Some(Duration::from_secs(6)));
    assert_eq!(CacheControl::new().get_max_age(), None);
}

#[test]
fn age_builds_whole_seconds() {
    let a = Age::from_duration(Duration::new(42, 999_999_999));
    assert_eq!(a.get_duration(), Duration::new(42, 999_999_999));
    let (values, back) = a.clone().build();
    assert_eq!(values, vec!["42".to_string()]);
    assert_eq!(back, a);
    assert_eq!(Age::get_headername(), "age");
    assert_eq!(Age::from_origin().build().0, vec!["0".to_string()]);
    let b = Age::from_origin().set_duration(Duration::from_secs(7));
    assert_eq!(b.get_duration().as_secs(), 7);
}

#[test]
fn age_from_date_is_recent() {
    let a = Age::from_date(std::time::Instant::now());
    assert!(a.get_duration().as_secs() < 5);
    assert!(a.get_duration().subsec_nanos() < 1_000_000_000);
}

#[test]
fn age_parses_header_text() {
    assert_eq!(Age::try_from_bytes(b"120"), Ok(Age::from_duration(Duration::from_secs(120))));
    assert_eq!(Age::try_from_bytes(b"  7\t"), Ok(Age::from_duration(Duration::from_secs(7))));
    assert_eq!(Age::try_from_bytes(b"+3"), Ok(Age::from_duration(Duration::from_secs(3))));
    assert_eq!(
        Age::try_from_bytes(b"18446744073709551615"),
        Ok(Age::from_duration(Duration::from_secs(u64::MAX)))
    );
}

#[test]
fn age_rejects_bad_header_text() {
    assert_eq!(Age::try_from_bytes(b""), Err(InvalidAgeValue));
    assert_eq!(Age::try_from_bytes(b"   "), Err(InvalidAgeValue));
    assert_eq!(Age::try_from_bytes(b"-1"), Err(InvalidAgeValue));
    assert_eq!(Age::try_from_bytes(b"1 2"), Err(InvalidAgeValue));
    assert_eq!(Age::try_from_bytes(b"+"), Err(InvalidAgeValue));
    assert_eq!(Age::try_from_bytes(b"12a"), Err(InvalidAgeValue));
    assert_eq!(Age::try_from_bytes(b"18446744073709551616"), Err(InvalidAgeValue));
    assert_eq!(Age::try_from_bytes(b"1\x7f"), Err(InvalidAgeValue));
}

#[test]
fn quality_rejects_out_of_range() {
    assert_eq!(Quality::from_thousandths(1001), None);
    assert_eq!(Quality::from_thousandths(1500), None);
    assert_eq!(Quality::from_thousandths(1000), Some(Quality::Value(1000)));
    assert_eq!(Quality::Value(1001).to_header_string(), None);
}

#[test]
fn quality_serialises_shortest_decimal() {
    assert_eq!(Quality::from_thousandths(500).unwrap().to_header_string(), Some("q=0.5".to_string()));
    assert_eq!(Quality::Default.to_header_string(), Some(String::new()));
    assert_eq!(Quality::default(), Quality::Default);
    assert_eq!(Quality::most_preferred().to_header_string(), Some(String::new()));
    assert_eq!(Quality::least_preferred().to_header_string(), Some("q=0.001".to_string()));
    assert_eq!(Quality::not_acceptable().to_header_string(), Some("q=0".to_string()));
    assert_eq!(Quality::Value(1000).to_header_string(), Some("q=1".to_string()));
    assert_eq!(Quality::Value(120).to_header_string(), Some("q=0.12".to_string()));
    assert_eq!(Quality::Value(105).to_header_string(), Some("q=0.105".to_string()));
    assert_eq!(Quality::Value(999).to_header_string(), Some("q=0.999".to_string()));
}

#[test]
fn quality_matches_float_display() {
    for q in 1u16..1000 {
        let expected = format!("q={}", q as f32 / 1000.0);
        assert_eq!(Quality::Value(q).to_header_string(), Some(expected));
    }
}

#[test]
fn age_from_header_values() {
    assert_eq!(Age::try_from_value(&vec![b" 30 ".to_vec()]), Ok(Age::from_duration(Duration::from_secs(30))));
    assert_eq!(Age::try_from_value(&vec![]), Err(InvalidAgeValue));
    assert_eq!(Age::try_from_value(&vec![b"1".to_vec(), b"2".to_vec()]), Err(InvalidAgeValue));
    assert_eq!(Age::try_from_value(&vec![b"x".to_vec()]), Err(InvalidAgeValue));
    let (values, _) = Age::from_duration(Duration::from_secs(77)).build();
    let bytes: Vec<Vec<u8>> = values.iter().map(|v| v.as_bytes().to_vec()).collect();
    assert_eq!(Age::try_from_value(&bytes), Ok(Age::from_duration(Duration::from_secs(77))));
}
