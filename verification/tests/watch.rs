use ipguard::config::{expand_pattern, WatchConfig};
use ipguard::watch::Watcher;

fn rule(path: &str, pattern: &str, findtime: u64, maxretry: usize) -> WatchConfig {
    WatchConfig { path: String::from(path), regex: expand_pattern(pattern), findtime, maxretry }
}

fn lines(text: &[&str]) -> Vec<String> {
    text.iter().map(|line| String::from(*line)).collect()
}

#[test]
fn a_grown_file_is_read_from_its_old_length() {
    let mut watcher = Watcher::new();
    assert!(watcher.watch(rule("a.log", "<IP>", 60, 3), 100));
    assert_eq!(watcher.file_changed("a.log", 150), Some(100));
    assert_eq!(watcher.file_changed("a.log", 151), Some(150));
}

#[test]
fn a_file_that_has_not_grown_has_nothing_to_read() {
    let mut watcher = Watcher::new();
    watcher.watch(rule("a.log", "<IP>", 60, 3), 100);
    assert_eq!(watcher.file_changed("a.log", 100), None);
    assert_eq!(watcher.file_changed("a.log", 40), None);
    // After the file was cut down it is read from its new end.
    assert_eq!(watcher.file_changed("a.log", 60), Some(40));
    assert_eq!(watcher.file_changed("a.log", 0), None);
    assert_eq!(watcher.file_changed("a.log", 1), Some(0));
}

#[test]
fn a_file_that_is_not_watched_has_nothing_to_read() {
    let mut watcher = Watcher::new();
    watcher.watch(rule("a.log", "<IP>", 60, 3), 0);
    assert_eq!(watcher.file_changed("b.log", 10), None);
    assert_eq!(watcher.file_changed("b.log", 20), None);
    assert!(watcher.search("b.log", &lines(&["10.0.0.5"]), 0).is_empty());
}

#[test]
fn the_first_rule_of_a_path_stays() {
    let mut watcher = Watcher::new();
    assert!(watcher.watch(rule("a.log", "first <IP>", 60, 1), 10));
    assert!(!watcher.watch(rule("a.log", "second <IP>", 60, 1), 99));
    assert_eq!(watcher.file_changed("a.log", 20), Some(10));
    let hits = watcher.search("a.log", &lines(&["second 10.0.0.6", "first 10.0.0.5"]), 0);
    assert_eq!(hits, vec![String::from("10.0.0.5")]);
}

#[test]
fn each_file_has_a_tracker_of_its_own() {
    let mut watcher = Watcher::new();
    watcher.watch(rule("a.log", "<IP>", 60, 2), 0);
    watcher.watch(rule("b.log", "<IP>", 60, 2), 0);
    assert!(watcher.search("a.log", &lines(&["10.0.0.5"]), 0).is_empty());
    assert!(watcher.search("b.log", &lines(&["10.0.0.5"]), 1).is_empty());
    assert_eq!(watcher.search("a.log", &lines(&["10.0.0.5"]), 2), vec![String::from("10.0.0.5")]);
}

#[test]
fn search_keeps_what_was_seen_and_the_length() {
    let mut watcher = Watcher::new();
    watcher.watch(rule("a.log", "<IP>", 10, 2), 5);
    assert!(watcher.search("a.log", &lines(&["10.0.0.5"]), 0).is_empty());
    assert_eq!(watcher.file_changed("a.log", 9), Some(5));
    assert_eq!(watcher.search("a.log", &lines(&["10.0.0.5"]), 10), vec![String::from("10.0.0.5")]);
    assert!(watcher.search("a.log", &lines(&["10.0.0.5"]), 21).is_empty());
    assert_eq!(watcher.file_changed("a.log", 12), Some(9));
}

#[test]
fn sweep_clears_every_tracker_and_keeps_the_files() {
    let mut watcher = Watcher::new();
    watcher.watch(rule("a.log", "<IP>", 10, 2), 5);
    watcher.watch(rule("b.log", "<IP>", 100, 2), 7);
    assert!(watcher.search("a.log", &lines(&["10.0.0.5"]), 0).is_empty());
    assert!(watcher.search("b.log", &lines(&["10.0.0.5"]), 0).is_empty());
    watcher.sweep(50);
    assert_eq!(watcher.file_changed("a.log", 6), Some(5));
    assert_eq!(watcher.file_changed("b.log", 8), Some(7));
    assert!(watcher.search("a.log", &lines(&["10.0.0.5"]), 50).is_empty());
    assert_eq!(watcher.search("b.log", &lines(&["10.0.0.5"]), 50), vec![String::from("10.0.0.5")]);
}
