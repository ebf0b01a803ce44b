//! Watch rules: what a rule holds, how its pattern is expanded, and which
//! rules are accepted when a configuration is loaded.
use crate::pattern::{pattern_compiles, regex_accepts};
use vstd::prelude::*;
use vstd::string::*;

verus! {

/// The pattern that the placeholder `<IP>` stands for: one capture group
/// around four dot-separated runs of one to three digits.
pub const IP_REGEX: &'static str = "(\\d{1,3}\\.\\d{1,3}\\.\\d{1,3}\\.\\d{1,3})";

/// A watch rule as it is written down, before its pattern is expanded.
#[derive(Debug)]
pub struct WatchConfigRaw {
    pub path: String,
    pub regex: String,
    pub findtime: u64,
    pub maxretry: usize,
}

/// A watch rule: the file to follow, the expanded pattern whose first capture
/// group is the address, the window in seconds and the threshold.
#[derive(Debug)]
pub struct WatchConfig {
    pub path: String,
    pub regex: String,
    pub findtime: u64,
    pub maxretry: usize,
}

/// Why a configuration was refused: the rule at index `rule` has a pattern
/// that does not compile, or a threshold of zero.
#[derive(Clone, Copy, Debug, PartialEq, Eq, Structural)]
pub enum ConfigError {
    Pattern { rule: usize },
    Threshold { rule: usize },
}

/// `s` begins with the placeholder `<IP>`.
pub open spec fn at_placeholder(s: Seq<char>) -> bool {
    s.len() >= 4 && s[0] == '<' && s[1] == 'I' && s[2] == 'P' && s[3] == '>'
}

/// `pattern` with every `<IP>`, taken left to right, replaced by `IP_REGEX`.
pub open spec fn expand(pattern: Seq<char>) -> Seq<char>
    decreases pattern.len(),
{
    if pattern.len() == 0 {
        pattern
    } else if at_placeholder(pattern) {
        IP_REGEX@ + expand(pattern.skip(4))
    } else {
        seq![pattern[0]] + expand(pattern.skip(1))
    }
}

/// A written rule can be loaded: its threshold is at least one and its
/// expanded pattern compiles.
pub open spec fn acceptable(raw: WatchConfigRaw) -> bool {
    raw.maxretry >= 1 && regex_accepts(expand(raw.regex@))
}

/// `rule` is `raw` with its pattern expanded and nothing else changed.
pub open spec fn loaded_from(rule: WatchConfig, raw: WatchConfigRaw) -> bool {
    &&& rule.path@ == raw.path@
    &&& rule.regex@ == expand(raw.regex@)
    &&& rule.findtime == raw.findtime
    &&& rule.maxretry == raw.maxretry
}

impl WatchConfig {
    /// The rule is one that loading accepts: a threshold of at least one and
    /// a pattern that compiles.
    pub open spec fn valid(&self) -> bool {
        self.maxretry >= 1 && regex_accepts(self.regex@)
    }
}

/// Replaces every `<IP>` in `raw` with `IP_REGEX`.
pub fn expand_pattern(raw: &str) -> (expanded: String)
    ensures
        expanded@ == expand(raw@),
{
    let n = raw.unicode_len();
    let mut out = String::new();
    let mut start: usize = 0;
    let mut i: usize = 0;
    proof {
        assert(raw@.skip(0) =~= raw@);
    }
    while i < n
        invariant
            n == raw@.len(),
            start <= i <= n,
            expand(raw@) == out@ + raw@.subrange(start as int, i as int) + expand(
                raw@.skip(i as int),
            ),
        decreases n - i,
    {
        let ghost rest = raw@.skip(i as int);
        let found = n - i >= 4 && raw.get_char(i) == '<' && raw.get_char(i + 1) == 'I'
            && raw.get_char(i + 2) == 'P' && raw.get_char(i + 3) == '>';
        if found {
            out.append(raw.substring_char(start, i));
            out.append(IP_REGEX);
            proof {
                assert(rest.skip(4) =~= raw@.skip(i + 4));
            }
            i = i + 4;
            start = i;
        } else {
            proof {
                assert(rest.skip(1) =~= raw@.skip(i + 1));
            }
            i = i + 1;
        }
    }
    out.append(raw.substring_char(start, n));
    out
}

/// Turns written rules into watch rules, in their order. The first rule with
/// a threshold of zero, or with a pattern that does not compile once
/// expanded, refuses the whole configuration; every rule that is handed out
/// is valid.
pub fn load_config(raw: Vec<WatchConfigRaw>) -> (loaded: Result<Vec<WatchConfig>, ConfigError>)
    ensures
        match loaded {
            Ok(rules) => {
                &&& rules@.len() == raw@.len()
                &&& forall|i: int| 0 <= i < raw@.len() ==> acceptable(#[trigger] raw@[i])
                &&& forall|i: int|
                    0 <= i < raw@.len() ==> loaded_from(#[trigger] rules@[i], raw@[i])
                &&& forall|i: int| 0 <= i < rules@.len() ==> (#[trigger] rules@[i]).valid()
            },
            Err(ConfigError::Threshold { rule }) => {
                &&& rule < raw@.len()
                &&& raw@[rule as int].maxretry == 0
                &&& forall|i: int| 0 <= i < rule ==> acceptable(#[trigger] raw@[i])
            },
            Err(ConfigError::Pattern { rule }) => {
                &&& rule < raw@.len()
                &&& raw@[rule as int].maxretry >= 1
                &&& !regex_accepts(expand(raw@[rule as int].regex@))
                &&& forall|i: int| 0 <= i < rule ==> acceptable(#[trigger] raw@[i])
            },
        },
{
    let mut rules: Vec<WatchConfig> = Vec::new();
    let mut i: usize = 0;
    while i < raw.len()
        invariant
            i <= raw@.len(),
            rules@.len() == i,
            forall|j: int| 0 <= j < i ==> acceptable(#[trigger] raw@[j]),
            forall|j: int| 0 <= j < i ==> loaded_from(#[trigger] rules@[j], raw@[j]),
        decreases raw@.len() - i,
    {
        let written = &raw[i];
        if written.maxretry == 0 {
            return Err(ConfigError::Threshold { rule: i });
        }
        let regex = expand_pattern(written.regex.as_str());
        if !pattern_compiles(regex.as_str()) {
            return Err(ConfigError::Pattern { rule: i });
        }
        rules.push(
            WatchConfig {
                path: written.path.clone(),
                regex,
                findtime: written.findtime,
                maxretry: written.maxretry,
            },
        );
        i = i + 1;
    }
    Ok(rules)
}

} // verus!
