//! From new log lines to the addresses that have crossed a rule's threshold.
use crate::config::WatchConfig;
use crate::pattern::{capture, capture_group};
use crate::tracker::{count, over_threshold, record, Occurrence, Tracker};
use vstd::prelude::*;

verus! {

/// The characters of each string of a list.
pub open spec fn texts(list: Seq<String>) -> Seq<Seq<char>> {
    list.map_values(|s: String| s@)
}

/// The addresses that `pattern` captures in `lines`: for each line, in order,
/// the text of the first capture group of its leftmost match, if it has one.
pub open spec fn captured(pattern: Seq<char>, lines: Seq<Seq<char>>) -> Seq<Seq<char>>
    decreases lines.len(),
{
    if lines.len() == 0 {
        Seq::empty()
    } else {
        let before = captured(pattern, lines.drop_last());
        match capture(pattern, lines.last(), 1) {
            Some(ip) => before.push(ip),
            None => before,
        }
    }
}

/// The tracker after each of `ips` was recorded, in order, at `now`.
pub open spec fn feed(
    sightings: Map<Seq<char>, Seq<Occurrence>>,
    ips: Seq<Seq<char>>,
    findtime: u64,
    now: u64,
) -> Map<Seq<char>, Seq<Occurrence>>
    decreases ips.len(),
{
    if ips.len() == 0 {
        sightings
    } else {
        record(feed(sightings, ips.drop_last(), findtime, now), ips.last(), findtime, now)
    }
}

/// The addresses among `ips` that were at or over `maxretry` right after
/// they were recorded, in order; one that stays over is listed each time.
pub open spec fn breaches(
    sightings: Map<Seq<char>, Seq<Occurrence>>,
    ips: Seq<Seq<char>>,
    findtime: u64,
    maxretry: nat,
    now: u64,
) -> Seq<Seq<char>>
    decreases ips.len(),
{
    if ips.len() == 0 {
        Seq::empty()
    } else {
        let before = breaches(sightings, ips.drop_last(), findtime, maxretry, now);
        if over_threshold(count(feed(sightings, ips, findtime, now), ips.last(), now), maxretry) {
            before.push(ips.last())
        } else {
            before
        }
    }
}

/// Runs the rule's pattern over each line and collects what its first
/// capture group holds, in the order of the lines.
pub fn extract_ips(config: &WatchConfig, lines: &Vec<String>) -> (ips: Vec<String>)
    ensures
        texts(ips@) == captured(config.regex@, texts(lines@)),
{
    let mut ips: Vec<String> = Vec::new();
    let mut i: usize = 0;
    while i < lines.len()
        invariant
            i <= lines@.len(),
            texts(ips@) == captured(config.regex@, texts(lines@).take(i as int)),
        decreases lines@.len() - i,
    {
        let ghost read = texts(lines@).take(i as int);
        proof {
            assert(texts(lines@).take(i + 1) =~= read.push(lines@[i as int]@));
            assert(read.push(lines@[i as int]@).drop_last() =~= read);
        }
        match capture_group(config.regex.as_str(), lines[i].as_str(), 1) {
            Some(ip) => {
                ips.push(ip);
            },
            None => {},
        }
        i = i + 1;
    }
    proof {
        assert(texts(lines@).take(lines@.len() as int) =~= texts(lines@));
    }
    ips
}

/// Records each of `ips` in order at `now` and returns those that were at or
/// over the threshold right after their own recording.
pub fn record_matches(
    tracker: &mut Tracker,
    ips: &Vec<String>,
    findtime: u64,
    maxretry: usize,
    now: u64,
) -> (hits: Vec<String>)
    ensures
        final(tracker)@ == feed(old(tracker)@, texts(ips@), findtime, now),
        texts(hits@) == breaches(old(tracker)@, texts(ips@), findtime, maxretry as nat, now),
{
    let mut hits: Vec<String> = Vec::new();
    let mut i: usize = 0;
    while i < ips.len()
        invariant
            i <= ips@.len(),
            tracker@ == feed(old(tracker)@, texts(ips@).take(i as int), findtime, now),
            texts(hits@) == breaches(
                old(tracker)@,
                texts(ips@).take(i as int),
                findtime,
                maxretry as nat,
                now,
            ),
        decreases ips@.len() - i,
    {
        let ghost fed = texts(ips@).take(i as int);
        proof {
            assert(texts(ips@).take(i + 1) =~= fed.push(ips@[i as int]@));
            assert(fed.push(ips@[i as int]@).drop_last() =~= fed);
        }
        let ip = ips[i].clone();
        tracker.add_ip(ip, findtime, now);
        if tracker.check_ip(ips[i].as_str(), maxretry, now) {
            hits.push(ips[i].clone());
        }
        i = i + 1;
    }
    proof {
        assert(texts(ips@).take(ips@.len() as int) =~= texts(ips@));
    }
    hits
}

/// Feeds the new `lines` of a rule's file to its tracker: each address that
/// the rule's pattern captures is recorded at `now`, in file order, and those
/// found at or over the rule's threshold are returned for blocking.
pub fn search_ip_in_new_lines(
    ip_tracker: &mut Tracker,
    lines: &Vec<String>,
    config: &WatchConfig,
    now: u64,
) -> (hits: Vec<String>)
    ensures
        final(ip_tracker)@ == feed(
            old(ip_tracker)@,
            captured(config.regex@, texts(lines@)),
            config.findtime,
            now,
        ),
        texts(hits@) == breaches(
            old(ip_tracker)@,
            captured(config.regex@, texts(lines@)),
            config.findtime,
            config.maxretry as nat,
            now,
        ),
{
    let ips = extract_ips(config, lines);
    record_matches(ip_tracker, &ips, config.findtime, config.maxretry, now)
}

} // verus!
