//! The sliding-window counter: which addresses were seen, when, and whether
//! one of them has been seen often enough to act on.
use crate::strmap::StrMap;
use vstd::prelude::*;

verus! {

/// One sighting of an address: the time it was recorded at and the span
/// during which it counts.
#[derive(Clone, Copy, Debug, PartialEq, Eq, Structural)]
pub struct Occurrence {
    pub at: u64,
    pub window: u64,
}

impl Occurrence {
    /// The sighting still counts at `now`: it was made no later than `now`
    /// and no longer than its window ago.
    pub open spec fn live(self, now: u64) -> bool {
        self.at <= now && now - self.at <= self.window
    }

    /// Tells whether the sighting still counts at `now`.
    pub fn is_live(&self, now: u64) -> (yes: bool)
        ensures
            yes == self.live(now),
    {
        self.at <= now && now - self.at <= self.window
    }
}

/// The sightings among `seen` that still count at `now`, in their order.
pub open spec fn live_part(seen: Seq<Occurrence>, now: u64) -> Seq<Occurrence> {
    seen.filter(|o: Occurrence| o.live(now))
}

/// What a tracker holds for `ip`: its sightings, none if it was never seen.
pub open spec fn history(
    sightings: Map<Seq<char>, Seq<Occurrence>>,
    ip: Seq<char>,
) -> Seq<Occurrence> {
    if sightings.dom().contains(ip) {
        sightings[ip]
    } else {
        Seq::empty()
    }
}

/// The sightings among `seen` whose window is longer than zero, in their
/// order.
pub open spec fn lasting(seen: Seq<Occurrence>) -> Seq<Occurrence> {
    seen.filter(|o: Occurrence| o.window > 0)
}

/// The tracker after `ip` is recorded at `now` with a window of `findtime`.
/// Of its earlier sightings those stay that count at `now` and have a window
/// longer than zero; the new one is appended, and no other address is
/// touched. A sighting with a window of zero expires at once: it counts at
/// the moment it is recorded, and the next sighting of the address takes its
/// place.
pub open spec fn record(
    sightings: Map<Seq<char>, Seq<Occurrence>>,
    ip: Seq<char>,
    findtime: u64,
    now: u64,
) -> Map<Seq<char>, Seq<Occurrence>> {
    sightings.insert(
        ip,
        lasting(live_part(history(sightings, ip), now)).push(
            Occurrence { at: now, window: findtime },
        ),
    )
}

/// How many sightings of `ip` count at `now`.
pub open spec fn count(sightings: Map<Seq<char>, Seq<Occurrence>>, ip: Seq<char>, now: u64) -> nat {
    live_part(history(sightings, ip), now).len()
}

/// The tracker after everything that no longer counts at `now` was cleared
/// out: each address keeps its sightings that count, and an address left
/// with none has no entry.
pub open spec fn swept(sightings: Map<Seq<char>, Seq<Occurrence>>, now: u64) -> Map<
    Seq<char>,
    Seq<Occurrence>,
> {
    Map::new(
        |ip: Seq<char>| sightings.dom().contains(ip) && live_part(sightings[ip], now).len() > 0,
        |ip: Seq<char>| live_part(sightings[ip], now),
    )
}

/// A count has reached the threshold `maxretry`. A threshold of zero is
/// reached by every count.
pub open spec fn over_threshold(count: nat, maxretry: nat) -> bool {
    count >= maxretry
}

/// Filtering a list that grew by one sighting.
proof fn lemma_live_part_push(seen: Seq<Occurrence>, o: Occurrence, now: u64)
    ensures
        live_part(seen.push(o), now) == if o.live(now) {
            live_part(seen, now).push(o)
        } else {
            live_part(seen, now)
        },
{
    reveal(Seq::filter);
    assert(seen.push(o).drop_last() =~= seen);
}

/// Dropping the zero windows of a list that grew by one sighting.
proof fn lemma_lasting_push(seen: Seq<Occurrence>, o: Occurrence)
    ensures
        lasting(seen.push(o)) == if o.window > 0 {
            lasting(seen).push(o)
        } else {
            lasting(seen)
        },
{
    reveal(Seq::filter);
    assert(seen.push(o).drop_last() =~= seen);
}

/// Per address, the sightings that may still count. The view maps each
/// address that has an entry to its sightings, oldest first.
pub struct Tracker {
    seen: StrMap<Vec<Occurrence>>,
}

impl View for Tracker {
    type V = Map<Seq<char>, Seq<Occurrence>>;

    closed spec fn view(&self) -> Map<Seq<char>, Seq<Occurrence>> {
        self.seen@.map_values(|list: Vec<Occurrence>| list@)
    }
}

/// The sightings of `list` that count at `now` and have a window longer
/// than zero, in their order.
fn lasting_of(list: &Vec<Occurrence>, now: u64) -> (kept: Vec<Occurrence>)
    ensures
        kept@ == lasting(live_part(list@, now)),
{
    let mut kept: Vec<Occurrence> = Vec::new();
    let mut i: usize = 0;
    while i < list.len()
        invariant
            i <= list@.len(),
            kept@ == lasting(live_part(list@.take(i as int), now)),
        decreases list@.len() - i,
    {
        let o = list[i];
        proof {
            assert(list@.take(i + 1) =~= list@.take(i as int).push(o));
            lemma_live_part_push(list@.take(i as int), o, now);
            lemma_lasting_push(live_part(list@.take(i as int), now), o);
        }
        if o.window > 0 && o.is_live(now) {
            kept.push(o);
        }
        i = i + 1;
    }
    proof {
        assert(list@.take(list@.len() as int) =~= list@);
    }
    kept
}

/// The sightings of `list` that count at `now`, in their order.
fn live_of(list: &Vec<Occurrence>, now: u64) -> (kept: Vec<Occurrence>)
    ensures
        kept@ == live_part(list@, now),
{
    let mut kept: Vec<Occurrence> = Vec::new();
    let mut i: usize = 0;
    while i < list.len()
        invariant
            i <= list@.len(),
            kept@ == live_part(list@.take(i as int), now),
        decreases list@.len() - i,
    {
        let o = list[i];
        proof {
            assert(list@.take(i + 1) =~= list@.take(i as int).push(o));
            lemma_live_part_push(list@.take(i as int), o, now);
        }
        if o.is_live(now) {
            kept.push(o);
        }
        i = i + 1;
    }
    proof {
        assert(list@.take(list@.len() as int) =~= list@);
    }
    kept
}

/// How many sightings of `list` count at `now`.
fn live_count(list: &Vec<Occurrence>, now: u64) -> (n: usize)
    ensures
        n == live_part(list@, now).len(),
{
    let mut n: usize = 0;
    let mut i: usize = 0;
    while i < list.len()
        invariant
            i <= list@.len(),
            n <= i,
            n == live_part(list@.take(i as int), now).len(),
        decreases list@.len() - i,
    {
        let o = list[i];
        proof {
            assert(list@.take(i + 1) =~= list@.take(i as int).push(o));
            lemma_live_part_push(list@.take(i as int), o, now);
        }
        if o.is_live(now) {
            n = n + 1;
        }
        i = i + 1;
    }
    proof {
        assert(list@.take(list@.len() as int) =~= list@);
    }
    n
}

impl Tracker {
    /// A tracker that has seen nothing.
    pub fn new() -> (tracker: Self)
        ensures
            tracker@ == Map::<Seq<char>, Seq<Occurrence>>::empty(),
    {
        let tracker = Tracker { seen: StrMap::new() };
        tracker
    }

    /// Records a sighting of `ip` at `now` that counts for `findtime`, and
    /// drops the earlier sightings of `ip` that no longer count at `now` or
    /// whose window is zero.
    pub fn add_ip(&mut self, ip: String, findtime: u64, now: u64)
        ensures
            final(self)@ == record(old(self)@, ip@, findtime, now),
    {
        let mut kept = match self.seen.get(ip.as_str()) {
            Some(list) => lasting_of(list, now),
            None => {
                Vec::new()
            },
        };
        assert(kept@ == lasting(live_part(history(self@, ip@), now)));
        kept.push(Occurrence { at: now, window: findtime });
        self.seen.insert(ip, kept);
    }

    /// The number of sightings of `ip` that count at `now`.
    pub fn count(&self, ip: &str, now: u64) -> (n: usize)
        ensures
            n == count(self@, ip@, now),
    {
        match self.seen.get(ip) {
            Some(list) => live_count(list, now),
            None => {
                0
            },
        }
    }

    /// Clears out what no longer counts at `now`: every sighting whose
    /// window has passed, and every address left without a sighting.
    pub fn sweep(&mut self, now: u64)
        ensures
            final(self)@ == swept(old(self)@, now),
    {
        let mut rest: StrMap<Vec<Occurrence>> = StrMap::new();
        std::mem::swap(&mut rest, &mut self.seen);
        let ghost start = rest@;
        let mut kept: StrMap<Vec<Occurrence>> = StrMap::new();
        loop
            invariant
                forall|ip: Seq<char>| #[trigger]
                    rest@.dom().contains(ip) ==> start.dom().contains(ip) && rest@[ip] == start[ip],
                forall|ip: Seq<char>| #[trigger]
                    kept@.dom().contains(ip) <==> start.dom().contains(ip) && !rest@.dom().contains(
                        ip,
                    ) && live_part(start[ip]@, now).len() > 0,
                forall|ip: Seq<char>| #[trigger]
                    kept@.dom().contains(ip) ==> kept@[ip]@ == live_part(start[ip]@, now),
            ensures
                rest@ == Map::<Seq<char>, Vec<Occurrence>>::empty(),
            decreases rest.size(),
        {
            match rest.pop() {
                Some((ip, list)) => {
                    let live = live_of(&list, now);
                    if live.len() > 0 {
                        kept.insert(ip, live);
                    }
                },
                None => {
                    break ;
                },
            }
        }
        self.seen = kept;
    }

    /// Tells whether `ip` has at least `maxretry` sightings that count at `now`.
    pub fn check_ip(&self, ip: &str, maxretry: usize, now: u64) -> (over: bool)
        ensures
            over == over_threshold(count(self@, ip@, now), maxretry as nat),
    {
        self.count(ip, now) >= maxretry
    }
}

/// One call of `Tracker::add_ip`: the address, its window and the time.
pub struct Call {
    pub ip: Seq<char>,
    pub findtime: u64,
    pub at: u64,
}

/// The tracker that a new tracker becomes through `calls`, made in order.
pub open spec fn replay(calls: Seq<Call>) -> Map<Seq<char>, Seq<Occurrence>>
    decreases calls.len(),
{
    if calls.len() == 0 {
        Map::empty()
    } else {
        let last = calls.last();
        record(replay(calls.drop_last()), last.ip, last.findtime, last.at)
    }
}

/// Every sighting that `calls` have made of `ip`, expired or not.
pub open spec fn made(calls: Seq<Call>, ip: Seq<char>) -> Seq<Occurrence>
    decreases calls.len(),
{
    if calls.len() == 0 {
        Seq::empty()
    } else {
        let before = made(calls.drop_last(), ip);
        let last = calls.last();
        if last.ip == ip {
            before.push(Occurrence { at: last.at, window: last.findtime })
        } else {
            before
        }
    }
}

/// The sightings that `calls` have made of `ip` and that still stand: all
/// with a window longer than zero, and one with a window of zero only if no
/// later call was made for `ip`.
pub open spec fn recorded(calls: Seq<Call>, ip: Seq<char>) -> Seq<Occurrence>
    decreases calls.len(),
{
    if calls.len() == 0 {
        Seq::empty()
    } else {
        let before = recorded(calls.drop_last(), ip);
        let last = calls.last();
        if last.ip == ip {
            lasting(before).push(Occurrence { at: last.at, window: last.findtime })
        } else {
            before
        }
    }
}

/// The clock never ran backwards between the calls.
pub open spec fn in_order(calls: Seq<Call>) -> bool {
    forall|i: int, j: int| 0 <= i <= j < calls.len() ==> calls[i].at <= calls[j].at
}

/// No sighting of `seen` was made after `t`.
pub open spec fn none_after(seen: Seq<Occurrence>, t: u64) -> bool {
    forall|i: int| 0 <= i < seen.len() ==> (#[trigger] seen[i]).at <= t
}

/// What has expired stays expired: of sightings made up to `t`, those that
/// count at a later `now` are among those that counted at `t`.
proof fn lemma_live_twice(seen: Seq<Occurrence>, t: u64, now: u64)
    requires
        t <= now,
        none_after(seen, t),
    ensures
        live_part(live_part(seen, t), now) == live_part(seen, now),
    decreases seen.len(),
{
    if seen.len() > 0 {
        let init = seen.drop_last();
        let o = seen.last();
        assert(seen =~= init.push(o));
        lemma_live_twice(init, t, now);
        lemma_live_part_push(init, o, t);
        lemma_live_part_push(init, o, now);
        lemma_live_part_push(live_part(init, t), o, now);
    }
}

/// It makes no difference whether the zero windows are dropped before or
/// after the sightings that do not count.
proof fn lemma_lasting_live(seen: Seq<Occurrence>, now: u64)
    ensures
        live_part(lasting(seen), now) == lasting(live_part(seen, now)),
    decreases seen.len(),
{
    if seen.len() > 0 {
        let init = seen.drop_last();
        let o = seen.last();
        assert(seen =~= init.push(o));
        lemma_lasting_live(init, now);
        lemma_lasting_push(init, o);
        lemma_live_part_push(init, o, now);
        lemma_live_part_push(lasting(init), o, now);
        lemma_lasting_push(live_part(init, now), o);
    }
}

/// Dropping the zero windows brings in no later sighting.
proof fn lemma_lasting_none_after(seen: Seq<Occurrence>, t: u64)
    requires
        none_after(seen, t),
    ensures
        none_after(lasting(seen), t),
    decreases seen.len(),
{
    if seen.len() > 0 {
        let init = seen.drop_last();
        assert(seen =~= init.push(seen.last()));
        lemma_lasting_none_after(init, t);
        lemma_lasting_push(init, seen.last());
    }
}

/// Calls made up to `t` have recorded no sighting after `t`.
proof fn lemma_recorded_none_after(calls: Seq<Call>, ip: Seq<char>, t: u64)
    requires
        forall|i: int| 0 <= i < calls.len() ==> (#[trigger] calls[i]).at <= t,
    ensures
        none_after(recorded(calls, ip), t),
    decreases calls.len(),
{
    if calls.len() > 0 {
        let init = calls.drop_last();
        lemma_recorded_none_after(init, ip, t);
        lemma_lasting_none_after(recorded(init, ip), t);
    }
}

/// At any time from the last call on, what the tracker holds for `ip` and
/// what stands recorded for it have the same sightings that count.
proof fn lemma_replay_keeps_live(calls: Seq<Call>, ip: Seq<char>, now: u64)
    requires
        in_order(calls),
        forall|i: int| 0 <= i < calls.len() ==> (#[trigger] calls[i]).at <= now,
    ensures
        live_part(history(replay(calls), ip), now) == live_part(recorded(calls, ip), now),
    decreases calls.len(),
{
    if calls.len() > 0 {
        let init = calls.drop_last();
        let last = calls.last();
        if last.ip == ip {
            let o = Occurrence { at: last.at, window: last.findtime };
            let held = history(replay(init), ip);
            let stood = recorded(init, ip);
            lemma_replay_keeps_live(init, ip, last.at);
            lemma_recorded_none_after(init, ip, last.at);
            lemma_live_twice(stood, last.at, now);
            lemma_lasting_live(live_part(stood, last.at), now);
            lemma_lasting_live(stood, now);
            lemma_live_part_push(lasting(live_part(held, last.at)), o, now);
            lemma_live_part_push(lasting(stood), o, now);
        } else {
            lemma_replay_keeps_live(init, ip, now);
        }
    }
}

/// Exact windowing. After any calls of `add_ip` on a new tracker, made
/// while the clock did not run backwards, the count of `ip` at any time
/// from the last call on is the number of the sightings standing for `ip`
/// whose time lies within their window of that time: no more and no fewer.
pub proof fn lemma_exact_window(calls: Seq<Call>, ip: Seq<char>, now: u64)
    requires
        in_order(calls),
        calls.len() > 0 ==> calls.last().at <= now,
    ensures
        count(replay(calls), ip, now) == live_part(recorded(calls, ip), now).len(),
{
    lemma_replay_keeps_live(calls, ip, now);
}

/// With windows longer than zero every sighting stands until its window has
/// passed: what stands recorded is all that was made, and the count is the
/// number of calls for `ip` whose time lies within their window of `now`.
pub proof fn lemma_exact_window_of_all(calls: Seq<Call>, ip: Seq<char>, now: u64)
    requires
        in_order(calls),
        calls.len() > 0 ==> calls.last().at <= now,
        forall|i: int| 0 <= i < calls.len() ==> (#[trigger] calls[i]).findtime > 0,
    ensures
        recorded(calls, ip) == made(calls, ip),
        count(replay(calls), ip, now) == live_part(made(calls, ip), now).len(),
{
    lemma_recorded_is_made(calls, ip);
    lemma_exact_window(calls, ip, now);
}

/// Where no window is zero, nothing that was made has given way.
proof fn lemma_recorded_is_made(calls: Seq<Call>, ip: Seq<char>)
    requires
        forall|i: int| 0 <= i < calls.len() ==> (#[trigger] calls[i]).findtime > 0,
    ensures
        recorded(calls, ip) == made(calls, ip),
        lasting(made(calls, ip)) == made(calls, ip),
    decreases calls.len(),
{
    if calls.len() > 0 {
        let init = calls.drop_last();
        let last = calls.last();
        lemma_recorded_is_made(init, ip);
        if last.ip == ip {
            lemma_lasting_push(
                made(init, ip),
                Occurrence { at: last.at, window: last.findtime },
            );
        }
    }
}

/// Clearing out takes nothing that counts. Where no sighting of `ip`
/// was made after `t`, the count of `ip` at any time from `t` on is the
/// same whether or not the tracker was swept at `t`.
pub proof fn lemma_sweep_keeps_counts(
    sightings: Map<Seq<char>, Seq<Occurrence>>,
    ip: Seq<char>,
    t: u64,
    now: u64,
)
    requires
        t <= now,
        none_after(history(sightings, ip), t),
    ensures
        count(swept(sightings, t), ip, now) == count(sightings, ip, now),
{
    let held = history(sightings, ip);
    lemma_live_twice(held, t, now);
}

/// An address counts from its first sighting on. Right after it was
/// recorded at `now`, whatever its window, even zero, its count at `now` is
/// at least one: a threshold of one or zero is met at first sight.
pub proof fn lemma_first_sight(
    sightings: Map<Seq<char>, Seq<Occurrence>>,
    ip: Seq<char>,
    findtime: u64,
    now: u64,
)
    ensures
        count(record(sightings, ip, findtime, now), ip, now) >= 1,
        over_threshold(count(record(sightings, ip, findtime, now), ip, now), 1),
        over_threshold(count(record(sightings, ip, findtime, now), ip, now), 0),
{
    let kept = lasting(live_part(history(sightings, ip), now));
    lemma_live_part_push(kept, Occurrence { at: now, window: findtime }, now);
}

/// The threshold is met from the count equal to it on: one below a
/// threshold of at least one is not over it, the threshold itself is, and
/// so is every count over a threshold of zero.
pub proof fn lemma_threshold_boundary(count: nat, maxretry: nat)
    ensures
        maxretry >= 1 ==> !over_threshold((maxretry - 1) as nat, maxretry),
        over_threshold(maxretry, maxretry),
        over_threshold(count, 0),
        over_threshold(count, maxretry) <==> count >= maxretry,
{
}

/// Every sighting of `seen` has a window of zero.
pub open spec fn all_momentary(seen: Seq<Occurrence>) -> bool {
    forall|i: int| 0 <= i < seen.len() ==> (#[trigger] seen[i]).window == 0
}

/// Of sightings that all have a window of zero none is lasting, whichever of
/// them count.
proof fn lemma_momentary_gives_way(seen: Seq<Occurrence>, now: u64)
    requires
        all_momentary(seen),
    ensures
        lasting(live_part(seen, now)) == Seq::<Occurrence>::empty(),
    decreases seen.len(),
{
    if seen.len() > 0 {
        let init = seen.drop_last();
        let o = seen.last();
        assert(seen =~= init.push(o));
        lemma_momentary_gives_way(init, now);
        lemma_live_part_push(init, o, now);
        lemma_lasting_push(live_part(init, now), o);
    }
}

/// Where every call for `ip` has a window of zero, the tracker never holds
/// more than one sighting of `ip`, and that one has a window of zero.
proof fn lemma_momentary_history(calls: Seq<Call>, ip: Seq<char>)
    requires
        forall|i: int|
            0 <= i < calls.len() && (#[trigger] calls[i]).ip == ip ==> calls[i].findtime == 0,
    ensures
        history(replay(calls), ip).len() <= 1,
        all_momentary(history(replay(calls), ip)),
    decreases calls.len(),
{
    if calls.len() > 0 {
        let init = calls.drop_last();
        let last = calls.last();
        lemma_momentary_history(init, ip);
        if last.ip == ip {
            lemma_momentary_gives_way(history(replay(init), ip), last.at);
        }
    }
}

/// A window of zero. Where every call for `ip` has a window of zero, the
/// count of `ip` never passes one, whatever the times of the calls and of
/// the count: each sighting expires at once, and at most the one recorded
/// last counts.
pub proof fn lemma_zero_window(calls: Seq<Call>, ip: Seq<char>, now: u64)
    requires
        forall|i: int|
            0 <= i < calls.len() && (#[trigger] calls[i]).ip == ip ==> calls[i].findtime == 0,
    ensures
        count(replay(calls), ip, now) <= 1,
{
    lemma_momentary_history(calls, ip);
    history(replay(calls), ip).lemma_filter_len(|o: Occurrence| o.live(now));
}

} // verus!
