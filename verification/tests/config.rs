use ipguard::config::{expand_pattern, load_config, ConfigError, WatchConfigRaw, IP_REGEX};

fn rule(path: &str, regex: &str, findtime: u64, maxretry: usize) -> WatchConfigRaw {
    WatchConfigRaw { path: String::from(path), regex: String::from(regex), findtime, maxretry }
}

#[test]
fn the_placeholder_stands_for_a_dotted_quad_group() {
    assert_eq!(IP_REGEX, r"(\d{1,3}\.\d{1,3}\.\d{1,3}\.\d{1,3})");
}

#[test]
fn expand_replaces_the_placeholder() {
    assert_eq!(
        expand_pattern("Failed password for .* from <IP> port"),
        r"Failed password for .* from (\d{1,3}\.\d{1,3}\.\d{1,3}\.\d{1,3}) port"
    );
}

#[test]
fn expand_replaces_every_placeholder() {
    assert_eq!(expand_pattern("<IP><IP>"), format!("{}{}", IP_REGEX, IP_REGEX));
    assert_eq!(expand_pattern("a<IP>b<IP>c"), format!("a{}b{}c", IP_REGEX, IP_REGEX));
}

#[test]
fn expand_leaves_other_text_alone() {
    assert_eq!(expand_pattern(""), "");
    assert_eq!(expand_pattern("no placeholder"), "no placeholder");
    assert_eq!(expand_pattern("<IP"), "<IP");
    assert_eq!(expand_pattern("<ip>"), "<ip>");
    assert_eq!(expand_pattern("<<IP>"), format!("<{}", IP_REGEX));
    assert_eq!(expand_pattern("<I<IP>P>"), format!("<I{}P>", IP_REGEX));
    assert_eq!(expand_pattern("é<IP>ü"), format!("é{}ü", IP_REGEX));
}

#[test]
fn load_config_keeps_the_rules_in_order() {
    let loaded = load_config(vec![
        rule("/var/log/auth.log", "from <IP> port", 600, 3),
        rule("/var/log/nginx.log", "^<IP> ", 60, 10),
    ]);
    let rules = match loaded {
        Ok(rules) => rules,
        Err(_) => panic!("the rules are acceptable"),
    };
    assert_eq!(rules.len(), 2);
    assert_eq!(rules[0].path, "/var/log/auth.log");
    assert_eq!(rules[0].regex, format!("from {} port", IP_REGEX));
    assert_eq!(rules[0].findtime, 600);
    assert_eq!(rules[0].maxretry, 3);
    assert_eq!(rules[1].path, "/var/log/nginx.log");
    assert_eq!(rules[1].regex, format!("^{} ", IP_REGEX));
    assert_eq!(rules[1].findtime, 60);
    assert_eq!(rules[1].maxretry, 10);
}

#[test]
fn load_config_of_nothing_is_nothing() {
    match load_config(Vec::new()) {
        Ok(rules) => assert!(rules.is_empty()),
        Err(_) => panic!("an empty configuration is acceptable"),
    }
}

#[test]
fn load_config_refuses_a_pattern_that_does_not_compile() {
    let loaded = load_config(vec![rule("a.log", "<IP>", 60, 3), rule("b.log", "from (<IP>", 60, 3)]);
    assert_eq!(loaded.err(), Some(ConfigError::Pattern { rule: 1 }));
}

#[test]
fn load_config_refuses_a_threshold_of_zero() {
    let loaded = load_config(vec![rule("a.log", "<IP>", 60, 0), rule("b.log", "(", 60, 3)]);
    assert_eq!(loaded.err(), Some(ConfigError::Threshold { rule: 0 }));
}

#[test]
fn load_config_names_the_first_rule_at_fault() {
    let loaded = load_config(vec![
        rule("a.log", "<IP>", 60, 1),
        rule("b.log", "[", 60, 0),
        rule("c.log", "(", 60, 3),
    ]);
    assert_eq!(loaded.err(), Some(ConfigError::Threshold { rule: 1 }));
    let loaded = load_config(vec![
        rule("a.log", "<IP>", 60, 1),
        rule("b.log", "[", 60, 2),
        rule("c.log", "x", 60, 0),
    ]);
    assert_eq!(loaded.err(), Some(ConfigError::Pattern { rule: 1 }));
}

#[test]
fn load_config_accepts_a_window_of_zero() {
    match load_config(vec![rule("a.log", "<IP>", 0, 1)]) {
        Ok(rules) => assert_eq!(rules[0].findtime, 0),
        Err(_) => panic!("a window of zero is acceptable"),
    }
}
