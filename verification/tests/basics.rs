use pgcluster::clock::unix_time;
use pgcluster::agent_clients::{AgentCall, AgentClient, AgentClientPool};
use pgcluster::big_endian::{get_be, put_be};
use pgcluster::calendar::days_to_ymd;
use pgcluster::metrics_registry::{Metric, MetricKind};
use pgcluster::numerals::{decimal_string, numeral_string, padded_decimal, parse_unsigned};
use pgcluster::numerals::signed_decimal_string;
use pgcluster::server::{seed_step, SeedStep};
use pgcluster::table::NameTable;
use pgcluster::text::{has_text, starts_with, strip_prefix, text_after_last, text_before_first};
use pgcluster::text::{trim, trim_end_of, trim_start};

#[test]
fn numbers_are_written_and_read() {
    for n in [0, 1, 9, 10, 255, u64::MAX] {
        assert_eq!(decimal_string(n), n.to_string());
        assert_eq!(parse_unsigned(&decimal_string(n), 10, u64::MAX), Some(n));
    }
    assert_eq!(numeral_string(0xdead_beef, 16).to_lowercase(), "deadbeef");
    assert_eq!(padded_decimal(7, 3), "007");
    assert_eq!(padded_decimal(1234, 3), "1234");
    assert_eq!(signed_decimal_string(i64::MIN), i64::MIN.to_string());
    assert_eq!(signed_decimal_string(5), "5");
    assert_eq!(parse_unsigned("+5", 10, 9), Some(5));
    assert_eq!(parse_unsigned("10", 10, 9), None);
    assert_eq!(parse_unsigned("", 10, 9), None);
    assert_eq!(parse_unsigned("5x", 10, 9), None);
}

#[test]
fn texts_are_cut() {
    assert_eq!(text_before_first("a:b:c", ':'), "a");
    assert_eq!(text_after_last("a:b:c", ':'), "c");
    assert_eq!(text_after_last("abc", ':'), "abc");
    assert_eq!(trim("  \t a b\n"), "a b");
    assert_eq!(trim_start("\u{2003}a "), "a ");
    assert_eq!(trim_end_of("a//", '/'), "a");
    assert_eq!(strip_prefix("abc", "ab").as_deref(), Some("c"));
    assert_eq!(strip_prefix("abc", "b"), None);
    assert!(has_text("needle in hay", "in hay"));
    assert!(!has_text("hay", "needle"));
    assert!(starts_with("abc", ""));
}

#[test]
fn a_table_holds_one_value_per_name() {
    let mut t: NameTable<u64> = NameTable::new();
    t.insert("a".into(), 1);
    t.insert("b".into(), 2);
    t.insert("a".into(), 3);
    assert_eq!(t.len(), 2);
    assert_eq!(t.get("a"), Some(&3));
    t.remove("a");
    assert_eq!(t.get("a"), None);
    assert_eq!((t.name_at(0).as_str(), *t.value_at(0)), ("b", 2));
}

#[test]
fn big_endian_numbers() {
    let mut out = vec![9];
    put_be(&mut out, 0x0102, 4);
    assert_eq!(out, [9, 0, 0, 1, 2]);
    assert_eq!(get_be(&out, 1, 4), 0x0102);
}

#[test]
fn days_are_dates() {
    assert_eq!(days_to_ymd(0), (1970, 1, 1));
    assert_eq!(days_to_ymd(58), (1970, 2, 28));
    assert_eq!(days_to_ymd(59), (1970, 3, 1));
    assert_eq!(days_to_ymd(364), (1970, 12, 31));
    assert_eq!(days_to_ymd(365), (1971, 1, 1));
    assert_eq!(days_to_ymd(11_016), (2000, 2, 29));
    assert_eq!(days_to_ymd(19_737), (2024, 1, 15));
}

#[test]
fn agents_are_called_over_cached_channels() {
    let mut pool = AgentClientPool::new();
    assert_eq!(pool.get_or_connect("pg1"), None);
    pool.connected("pg1", 7);
    pool.connected("pg2", 8);
    assert_eq!(pool.get_or_connect("pg1"), Some(7));
    pool.remove("pg1");
    assert_eq!(pool.get_or_connect("pg1"), None);
    assert_eq!(pool.get_or_connect("pg2"), Some(8));
    assert_eq!(AgentClientPool::default().get_or_connect("pg2"), None);
    let mut c = AgentClient::new("a:7001");
    assert_eq!(c.heartbeat(), 1);
    assert_eq!(c.heartbeat(), 2);
    assert_eq!(c.context(AgentCall::GetStatus), "GetStatus from a:7001");
    assert_eq!(c.context(AgentCall::StopPostgres), "StopPostgres at a:7001");
    assert_eq!(pool.agent_url("a:7001"), "http://a:7001");
    assert!(pool.ca_pem().is_none());
    let encrypted = AgentClientPool::new_with_ca(vec![1, 2]);
    assert_eq!(encrypted.agent_url("a:7001"), "https://a:7001");
    assert_eq!(encrypted.ca_pem(), Some(&vec![1, 2]));
}

#[test]
fn metrics_have_names_of_their_own() {
    let all = Metric::all();
    assert_eq!(all.len(), 11);
    let mut names: Vec<&str> = all.iter().map(|m| m.name()).collect();
    assert!(names.iter().all(|n| n.starts_with("pgcluster_")));
    assert!(all.iter().all(|m| !m.help().is_empty()));
    names.sort();
    names.dedup();
    assert_eq!(names.len(), 11);
    assert_eq!(Metric::FailoverTotal.name(), "pgcluster_failovers_total");
    assert_eq!(Metric::ReplicaLagBytes.kind(), MetricKind::GaugeByNode);
}

#[test]
fn a_clock_before_the_epoch_reads_zero() {
    assert_eq!(unix_time(None), 0);
    assert_eq!(unix_time(Some(1_700_000_000)), 1_700_000_000);
}

#[test]
fn white_space_is_trimmed_and_nothing_else() {
    let mut found: Vec<u32> = Vec::new();
    for c in '\0'..=char::MAX {
        if trim_start(&format!("{c}x")) == "x" {
            found.push(c as u32);
        }
    }
    let mut expected: Vec<u32> = vec![0x20, 0x85, 0xa0, 0x1680, 0x2028, 0x2029, 0x202f, 0x205f, 0x3000];
    expected.extend(0x9..=0xd);
    expected.extend(0x2000..=0x200a);
    expected.sort_unstable();
    assert_eq!(found, expected);
}

#[test]
fn seeding_waits_for_leadership_but_not_for_ever() {
    assert_eq!(seed_step(0, true), SeedStep::Seed);
    assert_eq!(seed_step(0, false), SeedStep::Wait);
    assert_eq!(seed_step(49, false), SeedStep::Wait);
    assert_eq!(seed_step(50, false), SeedStep::Seed);
    assert_eq!(seed_step(50, true), SeedStep::Seed);
}
