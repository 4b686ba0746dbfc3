use tcping::after_literal_attempt;
use tcping::after_lookup;
use tcping::format_centi_percent;
use tcping::format_millis;
use tcping::literal_candidate;
use tcping::summarize;
use tcping::u64_to_decimal;
use tcping::IpAddrRepr;
use tcping::ProbeSession;
use tcping::ResolveStep;
use tcping::SessionAction;
use tcping::SocketAddrRepr;

#[test]
fn decimal_rendering() {
    assert_eq!(u64_to_decimal(0), String::from("0"));
    assert_eq!(u64_to_decimal(7), String::from("7"));
    assert_eq!(u64_to_decimal(65535), String::from("65535"));
    assert_eq!(u64_to_decimal(1000000), String::from("1000000"));
}

#[test]
fn millis_rendering_has_three_decimals() {
    assert_eq!(format_millis(1234567), String::from("1234.567"));
    assert_eq!(format_millis(999), String::from("0.999"));
    assert_eq!(format_millis(5000), String::from("5.000"));
    assert_eq!(format_millis(0), String::from("0.000"));
    assert_eq!(format_millis(2001001), String::from("2001.001"));
}

#[test]
fn percent_rendering_has_two_decimals() {
    assert_eq!(format_centi_percent(10000), String::from("100.00"));
    assert_eq!(format_centi_percent(0), String::from("0.00"));
    assert_eq!(format_centi_percent(3333), String::from("33.33"));
    assert_eq!(format_centi_percent(5), String::from("0.05"));
}

#[test]
fn literal_candidate_joins_host_and_port() {
    assert_eq!(literal_candidate("127.0.0.1", 1), String::from("127.0.0.1:1"));
    assert_eq!(literal_candidate("example.com", 8080), String::from("example.com:8080"));
}

#[test]
fn literal_address_is_used_without_lookup() {
    // 127.0.0.1 as a 32-bit value.
    let addr = SocketAddrRepr { ip: IpAddrRepr::V4 { bits: 0x7f000001 }, port: 80 };
    assert_eq!(after_literal_attempt(Some(addr)), ResolveStep::UseAddress { addr });
    assert_eq!(after_literal_attempt(None), ResolveStep::NeedsLookup);
}

#[test]
fn lookup_takes_the_first_record() {
    let ip = IpAddrRepr::V4 { bits: 0x5db8d822 };
    assert_eq!(
        after_lookup(Some(ip), "example.com", 443),
        Ok(SocketAddrRepr { ip, port: 443 })
    );
}

#[test]
fn failed_lookup_is_fatal_and_names_the_target() {
    let r = after_lookup(None, "this.definitely.invalid.example", 80);
    let e = r.unwrap_err();
    assert_eq!(e.host, String::from("this.definitely.invalid.example"));
    assert_eq!(e.port, 80);
    assert_eq!(
        e.message(),
        String::from("DNS: Could not find host - this.definitely.invalid.example : 80")
    );
}

#[test]
fn statistics_track_counts_and_extremes() {
    // Timeout of 2 s: the minimum starts at the 3 s sentinel.
    let mut session = ProbeSession::new(3, 2_000_000);
    assert_eq!(session.next_action(), SessionAction::Probe);
    session.record_probe(true, 1500);
    assert!(session.sleep_before_next());
    session.record_probe(false, 2_000_400);
    assert!(session.sleep_before_next());
    session.record_probe(true, 900);
    assert!(!session.sleep_before_next());
    assert_eq!(session.next_action(), SessionAction::Report);

    let s = &session.stats;
    assert_eq!(s.attempts, 3);
    assert_eq!(s.failures, 1);
    assert_eq!(session.stats.successes(), 2);
    assert_eq!(s.min_micros, 900);
    assert_eq!(s.max_micros, 2_000_400);
    assert_eq!(s.total_micros, 1500 + 2_000_400 + 900);

    let sum = summarize(s);
    assert_eq!(sum.probes_sent, 3);
    assert_eq!(sum.successes, 2);
    assert_eq!(sum.failures, 1);
    assert_eq!(sum.fail_centi_percent, 3333);
    assert_eq!(sum.avg_micros, (1500 + 2_000_400 + 900) / 3);
    assert!(sum.has_samples);
}

#[test]
fn minimum_stays_at_sentinel_when_nothing_beats_it() {
    let mut session = ProbeSession::new(1, 2_000_000);
    session.record_probe(false, 3_500_000);
    assert_eq!(session.stats.min_micros, 3_000_000);
    assert_eq!(session.stats.max_micros, 3_500_000);
}

#[test]
fn single_failed_probe_reports_full_failure() {
    // Target 127.0.0.1 port 1, one attempt, nothing listening: one failure.
    let mut session = ProbeSession::new(1, 2_000_000);
    assert_eq!(session.next_action(), SessionAction::Probe);
    session.record_probe(false, 1200);
    assert_eq!(session.next_action(), SessionAction::Report);
    let sum = summarize(&session.stats);
    assert_eq!(sum.probes_sent, 1);
    assert_eq!(sum.successes, 0);
    assert_eq!(sum.failures, 1);
    assert_eq!(sum.fail_centi_percent, 10000);
    assert_eq!(format_centi_percent(sum.fail_centi_percent), String::from("100.00"));
}

#[test]
fn zero_planned_attempts_report_no_data() {
    let session = ProbeSession::new(0, 2_000_000);
    assert_eq!(session.next_action(), SessionAction::Report);
    let sum = summarize(&session.stats);
    assert_eq!(sum.probes_sent, 0);
    assert_eq!(sum.successes, 0);
    assert_eq!(sum.failures, 0);
    assert_eq!(sum.fail_centi_percent, 0);
    assert_eq!(format_centi_percent(sum.fail_centi_percent), String::from("0.00"));
    assert!(!sum.has_samples);
    assert_eq!(sum.avg_micros, 0);
}
