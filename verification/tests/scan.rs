use ipguard::config::{expand_pattern, WatchConfig};
use ipguard::scan::{extract_ips, record_matches, search_ip_in_new_lines};
use ipguard::tracker::Tracker;

fn rule(pattern: &str, findtime: u64, maxretry: usize) -> WatchConfig {
    WatchConfig {
        path: String::from("/var/log/auth.log"),
        regex: expand_pattern(pattern),
        findtime,
        maxretry,
    }
}

fn lines(text: &[&str]) -> Vec<String> {
    text.iter().map(|line| String::from(*line)).collect()
}

#[test]
fn extract_ips_reads_the_first_group_of_each_matching_line() {
    let config = rule("Failed password for \\w+ from <IP> port", 60, 3);
    let found = extract_ips(
        &config,
        &lines(&[
            "Jan 1 sshd: Failed password for root from 10.0.0.5 port 22",
            "Jan 1 sshd: Accepted password for root from 10.0.0.6 port 22",
            "Jan 1 sshd: Failed password for admin from 192.168.1.77 port 4022",
            "",
        ]),
    );
    assert_eq!(found, vec![String::from("10.0.0.5"), String::from("192.168.1.77")]);
}

#[test]
fn extract_ips_takes_the_leftmost_match_of_a_line() {
    let config = rule("<IP>", 60, 3);
    let found = extract_ips(&config, &lines(&["from 1.2.3.4 to 5.6.7.8", "999.1.2.3"]));
    assert_eq!(found, vec![String::from("1.2.3.4"), String::from("999.1.2.3")]);
}

#[test]
fn extract_ips_finds_nothing_without_a_group() {
    let config = rule("Failed password", 60, 3);
    let found = extract_ips(&config, &lines(&["Failed password for root from 10.0.0.5"]));
    assert!(found.is_empty());
}

#[test]
fn extract_ips_finds_nothing_with_a_pattern_that_does_not_compile() {
    let config = rule("from (<IP>", 60, 3);
    let found = extract_ips(&config, &lines(&["from (10.0.0.5"]));
    assert!(found.is_empty());
}

#[test]
fn record_matches_returns_addresses_from_the_threshold_on() {
    let mut tracker = Tracker::new();
    let ips = lines(&["10.0.0.5", "10.0.0.6", "10.0.0.5", "10.0.0.5", "10.0.0.6", "10.0.0.5"]);
    let hits = record_matches(&mut tracker, &ips, 60, 3, 100);
    assert_eq!(hits, vec![String::from("10.0.0.5"), String::from("10.0.0.5")]);
    assert_eq!(tracker.count("10.0.0.5", 100), 4);
    assert_eq!(tracker.count("10.0.0.6", 100), 2);
}

#[test]
fn record_matches_of_nothing_changes_nothing() {
    let mut tracker = Tracker::new();
    tracker.add_ip(String::from("10.0.0.5"), 60, 0);
    let hits = record_matches(&mut tracker, &Vec::new(), 60, 1, 10);
    assert!(hits.is_empty());
    assert_eq!(tracker.count("10.0.0.5", 10), 1);
}

#[test]
fn search_counts_over_several_deltas() {
    let config = rule("denied <IP>", 60, 3);
    let mut tracker = Tracker::new();
    let first = search_ip_in_new_lines(
        &mut tracker,
        &lines(&["denied 10.0.0.5", "denied 10.0.0.5"]),
        &config,
        0,
    );
    assert!(first.is_empty());
    let second = search_ip_in_new_lines(
        &mut tracker,
        &lines(&["allowed 10.0.0.5", "denied 10.0.0.5", "denied 10.0.0.9"]),
        &config,
        30,
    );
    assert_eq!(second, vec![String::from("10.0.0.5")]);
    let third = search_ip_in_new_lines(&mut tracker, &lines(&["denied 10.0.0.5"]), &config, 61);
    assert!(third.is_empty());
    assert_eq!(tracker.count("10.0.0.5", 61), 2);
}

#[test]
fn search_flags_at_first_sight_with_a_threshold_of_one() {
    let config = rule("<IP>", 0, 1);
    let mut tracker = Tracker::new();
    let hits = search_ip_in_new_lines(&mut tracker, &lines(&["x 10.0.0.5", "y 10.0.0.6"]), &config, 7);
    assert_eq!(hits, vec![String::from("10.0.0.5"), String::from("10.0.0.6")]);
}

#[test]
fn search_with_a_window_of_zero_never_counts_past_one() {
    let config = rule("<IP>", 0, 3);
    let mut tracker = Tracker::new();
    let hits = search_ip_in_new_lines(
        &mut tracker,
        &lines(&["a 10.0.0.5", "b 10.0.0.5", "c 10.0.0.5", "d 10.0.0.5"]),
        &config,
        7,
    );
    assert!(hits.is_empty());
    assert_eq!(tracker.count("10.0.0.5", 7), 1);
}
