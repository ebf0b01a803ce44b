//! What the block lifecycle comes to against a firewall that does what it is
//! told. The firewall is a model here: the set of addresses it blocks. Each
//! request runs to its end before the next one starts.
use crate::block::{
    block_records, block_step, due, expire_records, expire_step, expiry, found, fresh,
    unblock_records, unblock_step, Answer, BlockError, BlockOutcome, BlockState, Step,
};
use crate::ipv4::valid_ip;
use vstd::prelude::*;

verus! {

/// How a request ran: the records and the firewall after it, how often the
/// firewall was asked for its state, how many commands it was given, and
/// what the request returned.
pub struct Run<T> {
    pub blocks: Map<Seq<char>, BlockState>,
    pub firewall: Set<Seq<char>>,
    pub asked: nat,
    pub commands: nat,
    pub result: Result<T, BlockError>,
}

/// What a finished step returned. (Every request ends in a finished step:
/// `lemma_requests_end`.)
pub open spec fn returned<T>(step: Step<T>) -> Result<T, BlockError> {
    match step {
        Step::Finished(result) => result,
        _ => Err(BlockError::Backend),
    }
}

/// A block request for `ip`, driven to its end against the model. The
/// firewall reports its true state; the command, if one is given, is carried
/// out when `ok` holds and has no effect otherwise.
pub open spec fn run_block(
    blocks: Map<Seq<char>, BlockState>,
    firewall: Set<Seq<char>>,
    ip: Seq<char>,
    now: u64,
    duration: u64,
    ok: bool,
) -> Run<BlockOutcome> {
    let first = block_step(ip, Answer::NotAsked, now, duration);
    let opened = block_records(blocks, ip, Answer::NotAsked, now, duration);
    if !(first is Ask) {
        Run { blocks: opened, firewall, asked: 0, commands: 0, result: returned(first) }
    } else {
        let report = Answer::Status { blocked: firewall.contains(ip) };
        let second = block_step(ip, report, now, duration);
        let informed = block_records(opened, ip, report, now, duration);
        if !(second is Execute) {
            Run { blocks: informed, firewall, asked: 1, commands: 0, result: returned(second) }
        } else {
            let done = Answer::Executed { ok };
            Run {
                blocks: block_records(informed, ip, done, now, duration),
                firewall: if ok {
                    firewall.insert(ip)
                } else {
                    firewall
                },
                asked: 1,
                commands: 1,
                result: returned(block_step(ip, done, now, duration)),
            }
        }
    }
}

/// An unblock request for `ip`, driven to its end against the model.
pub open spec fn run_unblock(
    blocks: Map<Seq<char>, BlockState>,
    firewall: Set<Seq<char>>,
    ip: Seq<char>,
    now: u64,
    ok: bool,
) -> Run<()> {
    let first = unblock_step(Answer::NotAsked);
    let opened = unblock_records(blocks, ip, Answer::NotAsked, now);
    if !(first is Ask) {
        Run { blocks: opened, firewall, asked: 0, commands: 0, result: returned(first) }
    } else {
        let report = Answer::Status { blocked: firewall.contains(ip) };
        let second = unblock_step(report);
        let informed = unblock_records(opened, ip, report, now);
        if !(second is Execute) {
            Run { blocks: informed, firewall, asked: 1, commands: 0, result: returned(second) }
        } else {
            let done = Answer::Executed { ok };
            Run {
                blocks: unblock_records(informed, ip, done, now),
                firewall: if ok {
                    firewall.remove(ip)
                } else {
                    firewall
                },
                asked: 1,
                commands: 1,
                result: returned(unblock_step(done)),
            }
        }
    }
}

/// The timer of the block of `ip`, fired at `now` and driven to its end
/// against the model.
pub open spec fn run_expire(
    blocks: Map<Seq<char>, BlockState>,
    firewall: Set<Seq<char>>,
    ip: Seq<char>,
    now: u64,
    ok: bool,
) -> Run<()> {
    let first = expire_step(blocks, ip, Answer::NotAsked, now);
    let opened = expire_records(blocks, ip, Answer::NotAsked, now);
    if !(first is Ask) {
        Run { blocks: opened, firewall, asked: 0, commands: 0, result: returned(first) }
    } else {
        let report = Answer::Status { blocked: firewall.contains(ip) };
        let second = expire_step(opened, ip, report, now);
        let informed = expire_records(opened, ip, report, now);
        if !(second is Execute) {
            Run { blocks: informed, firewall, asked: 1, commands: 0, result: returned(second) }
        } else {
            let done = Answer::Executed { ok };
            Run {
                blocks: expire_records(informed, ip, done, now),
                firewall: if ok {
                    firewall.remove(ip)
                } else {
                    firewall
                },
                asked: 1,
                commands: 1,
                result: returned(expire_step(informed, ip, done, now)),
            }
        }
    }
}

/// The records say "blocked" of exactly the addresses that the firewall blocks.
pub open spec fn in_step(blocks: Map<Seq<char>, BlockState>, firewall: Set<Seq<char>>) -> bool {
    forall|ip: Seq<char>| blocks.dom().contains(ip) <==> firewall.contains(ip)
}

/// A request never outlasts its command: the step after the command is the
/// last one, and a report leads to the end or to the command.
pub proof fn lemma_requests_end(ip: Seq<char>, now: u64, duration: u64, blocked: bool, ok: bool)
    ensures
        block_step(ip, Answer::Executed { ok }, now, duration) is Finished,
        !(block_step(ip, Answer::Status { blocked }, now, duration) is Ask),
        unblock_step(Answer::Executed { ok }) is Finished,
        !(unblock_step(Answer::Status { blocked }) is Ask),
{
}

/// A malformed address never reaches the firewall: at every step, whatever
/// was answered, the request is over with `Malformed` and no record changes;
/// run to its end, it has asked nothing and commanded nothing.
pub proof fn lemma_malformed_is_refused(
    blocks: Map<Seq<char>, BlockState>,
    firewall: Set<Seq<char>>,
    ip: Seq<char>,
    answer: Answer,
    now: u64,
    duration: u64,
    ok: bool,
)
    requires
        !valid_ip(ip),
    ensures
        block_step(ip, answer, now, duration) == Step::<BlockOutcome>::Finished(
            Err(BlockError::Malformed),
        ),
        block_records(blocks, ip, answer, now, duration) == blocks,
        run_block(blocks, firewall, ip, now, duration, ok) == (Run {
            blocks,
            firewall,
            asked: 0,
            commands: 0,
            result: Err::<BlockOutcome, BlockError>(BlockError::Malformed),
        }),
{
}

/// Blocking twice issues one command, not two. After a block request that
/// ended well, a second one for the same address finds the block in place:
/// it gives no command, returns `AlreadyBlocked` and leaves records and
/// firewall as they are. Where the firewall did not block the address
/// before, the two requests together have given exactly one command.
pub proof fn lemma_block_once(
    blocks: Map<Seq<char>, BlockState>,
    firewall: Set<Seq<char>>,
    ip: Seq<char>,
    now: u64,
    again: u64,
    duration: u64,
    ok: bool,
    ok_again: bool,
)
    requires
        run_block(blocks, firewall, ip, now, duration, ok).result is Ok,
    ensures
        ({
            let first = run_block(blocks, firewall, ip, now, duration, ok);
            let second = run_block(first.blocks, first.firewall, ip, again, duration, ok_again);
            &&& second.commands == 0
            &&& second.result == Ok::<BlockOutcome, BlockError>(BlockOutcome::AlreadyBlocked)
            &&& second.blocks == first.blocks
            &&& second.firewall == first.firewall
            &&& !firewall.contains(ip) ==> first.commands + second.commands == 1
            &&& firewall.contains(ip) ==> first.commands + second.commands == 0
        }),
{
}

/// Unblocking what the firewall does not block ends well without a command,
/// and leaves no record of the address.
pub proof fn lemma_unblock_without_block(
    blocks: Map<Seq<char>, BlockState>,
    firewall: Set<Seq<char>>,
    ip: Seq<char>,
    now: u64,
    ok: bool,
)
    requires
        !firewall.contains(ip),
    ensures
        unblock_step(Answer::Status { blocked: false }) == Step::Finished(Ok(())),
        run_unblock(blocks, firewall, ip, now, ok).commands == 0,
        run_unblock(blocks, firewall, ip, now, ok).result == Ok::<(), BlockError>(()),
        run_unblock(blocks, firewall, ip, now, ok).firewall == firewall,
        !run_unblock(blocks, firewall, ip, now, ok).blocks.dom().contains(ip),
{
}

/// An unblock request that comes late does no harm. After an unblock
/// request that ended well, another one for the same address, whenever it
/// comes, gives no command, ends well and changes nothing.
pub proof fn lemma_unblock_twice(
    blocks: Map<Seq<char>, BlockState>,
    firewall: Set<Seq<char>>,
    ip: Seq<char>,
    now: u64,
    ok: bool,
    again: u64,
    ok_again: bool,
)
    requires
        run_unblock(blocks, firewall, ip, now, ok).result is Ok,
    ensures
        ({
            let first = run_unblock(blocks, firewall, ip, now, ok);
            let second = run_unblock(first.blocks, first.firewall, ip, again, ok_again);
            &&& second.commands == 0
            &&& second.result == Ok::<(), BlockError>(())
            &&& second.blocks == first.blocks
            &&& second.firewall == first.firewall
            &&& !second.blocks.dom().contains(ip)
            &&& !second.firewall.contains(ip)
        }),
{
}

/// A block that the firewall reports is left as it is. Whatever the records
/// say, a block request for an address that the firewall blocks already
/// gives no command, ends with `AlreadyBlocked` and orders no expiry: the
/// record that the address had stays, and one that is made for it is never
/// due, so that no timer will ever lift the block.
pub proof fn lemma_found_block_is_kept(
    blocks: Map<Seq<char>, BlockState>,
    firewall: Set<Seq<char>>,
    ip: Seq<char>,
    now: u64,
    duration: u64,
    ok: bool,
    later: u64,
    ok_later: bool,
)
    requires
        valid_ip(ip),
        firewall.contains(ip),
    ensures
        ({
            let run = run_block(blocks, firewall, ip, now, duration, ok);
            &&& run.commands == 0
            &&& run.result == Ok::<BlockOutcome, BlockError>(BlockOutcome::AlreadyBlocked)
            &&& run.firewall == firewall
            &&& blocks.dom().contains(ip) ==> run.blocks == blocks
            &&& !blocks.dom().contains(ip) ==> run.blocks == blocks.insert(ip, found(now))
            &&& !blocks.dom().contains(ip) ==> !due(run.blocks, ip, later)
            &&& !blocks.dom().contains(ip) ==> run_expire(
                run.blocks,
                run.firewall,
                ip,
                later,
                ok_later,
            ).commands == 0
        }),
{
}

/// A timer that finds nothing due does nothing. Where the block of `ip` is
/// not on record as due at `now`, the timer asks the firewall nothing, gives
/// it no command, ends well and leaves records and firewall as they are.
pub proof fn lemma_idle_timer(
    blocks: Map<Seq<char>, BlockState>,
    firewall: Set<Seq<char>>,
    ip: Seq<char>,
    answer: Answer,
    now: u64,
    ok: bool,
)
    requires
        !due(blocks, ip, now),
    ensures
        expire_step(blocks, ip, answer, now) == Step::Finished(Ok(())),
        expire_records(blocks, ip, answer, now) == blocks,
        run_expire(blocks, firewall, ip, now, ok) == (Run {
            blocks,
            firewall,
            asked: 0,
            commands: 0,
            result: Ok::<(), BlockError>(()),
        }),
{
}

/// A timer spares a newer block. Where a block request ends with `Blocked`
/// at `now`, a timer that fires before the `expires_at` it returned, such
/// as the timer of an earlier block of the address, lifts nothing.
pub proof fn lemma_timer_spares_newer_block(
    blocks: Map<Seq<char>, BlockState>,
    firewall: Set<Seq<char>>,
    ip: Seq<char>,
    now: u64,
    duration: u64,
    ok: bool,
    expires_at: u64,
    early: u64,
    ok_early: bool,
)
    requires
        run_block(blocks, firewall, ip, now, duration, ok).result == Ok::<
            BlockOutcome,
            BlockError,
        >(BlockOutcome::Blocked { expires_at }),
        early < expires_at,
    ensures
        ({
            let blocked = run_block(blocks, firewall, ip, now, duration, ok);
            let fired = run_expire(blocked.blocks, blocked.firewall, ip, early, ok_early);
            &&& fired.asked == 0
            &&& fired.commands == 0
            &&& fired.blocks == blocked.blocks
            &&& fired.firewall == blocked.firewall
            &&& fired.blocks.dom().contains(ip)
            &&& fired.firewall.contains(ip)
        }),
{
}

/// A block expires once. Where a block request has ended with `Blocked`,
/// the record it made is due from the `expires_at` it returned on, which is
/// `now` plus the duration. The timer that fires then gives the firewall
/// exactly one command and leaves the address unblocked in the records and
/// in the firewall; a timer or an unblock request that comes after it gives
/// no command.
pub proof fn lemma_block_expires(
    blocks: Map<Seq<char>, BlockState>,
    firewall: Set<Seq<char>>,
    ip: Seq<char>,
    now: u64,
    duration: u64,
    ok: bool,
    expires_at: u64,
    later: u64,
    stale: u64,
    ok_stale: bool,
)
    requires
        run_block(blocks, firewall, ip, now, duration, ok).result == Ok::<
            BlockOutcome,
            BlockError,
        >(BlockOutcome::Blocked { expires_at }),
        later >= expires_at,
    ensures
        ({
            let blocked = run_block(blocks, firewall, ip, now, duration, ok);
            let lifted = run_expire(blocked.blocks, blocked.firewall, ip, later, true);
            let timer = run_expire(lifted.blocks, lifted.firewall, ip, stale, ok_stale);
            let request = run_unblock(lifted.blocks, lifted.firewall, ip, stale, ok_stale);
            &&& expires_at == expiry(now, duration)
            &&& blocked.commands == 1
            &&& blocked.blocks.dom().contains(ip)
            &&& blocked.blocks[ip] == fresh(now, duration)
            &&& forall|t: u64| due(blocked.blocks, ip, t) <==> t >= expires_at
            &&& lifted == run_unblock(blocked.blocks, blocked.firewall, ip, later, true)
            &&& lifted.commands == 1
            &&& lifted.result == Ok::<(), BlockError>(())
            &&& !lifted.blocks.dom().contains(ip)
            &&& !lifted.firewall.contains(ip)
            &&& timer.asked == 0 && timer.commands == 0
            &&& request.commands == 0
            &&& !timer.blocks.dom().contains(ip) && !timer.firewall.contains(ip)
            &&& !request.blocks.dom().contains(ip) && !request.firewall.contains(ip)
        }),
{
}

/// After a block request for a well-formed address, whatever the records
/// said before and whether or not the command was carried out, the records
/// and the firewall agree on that address, and neither has changed for any
/// other address.
pub proof fn lemma_block_agrees(
    blocks: Map<Seq<char>, BlockState>,
    firewall: Set<Seq<char>>,
    ip: Seq<char>,
    now: u64,
    duration: u64,
    ok: bool,
)
    requires
        valid_ip(ip),
    ensures
        ({
            let run = run_block(blocks, firewall, ip, now, duration, ok);
            &&& run.blocks.dom().contains(ip) <==> run.firewall.contains(ip)
            &&& run.result is Ok <==> run.firewall.contains(ip)
            &&& forall|other: Seq<char>|
                other != ip ==> (run.blocks.dom().contains(other) <==> blocks.dom().contains(other))
                    && (run.firewall.contains(other) <==> firewall.contains(other))
        }),
{
}

/// The same after an unblock request, for any address.
pub proof fn lemma_unblock_agrees(
    blocks: Map<Seq<char>, BlockState>,
    firewall: Set<Seq<char>>,
    ip: Seq<char>,
    now: u64,
    ok: bool,
)
    ensures
        ({
            let run = run_unblock(blocks, firewall, ip, now, ok);
            &&& run.blocks.dom().contains(ip) <==> run.firewall.contains(ip)
            &&& run.result is Ok <==> !run.firewall.contains(ip)
            &&& forall|other: Seq<char>|
                other != ip ==> (run.blocks.dom().contains(other) <==> blocks.dom().contains(other))
                    && (run.firewall.contains(other) <==> firewall.contains(other))
        }),
{
}

/// Records that are in step with the firewall stay so through any request.
pub proof fn lemma_in_step_is_kept(
    blocks: Map<Seq<char>, BlockState>,
    firewall: Set<Seq<char>>,
    ip: Seq<char>,
    now: u64,
    duration: u64,
    ok: bool,
)
    requires
        in_step(blocks, firewall),
    ensures
        in_step(
            run_block(blocks, firewall, ip, now, duration, ok).blocks,
            run_block(blocks, firewall, ip, now, duration, ok).firewall,
        ),
        in_step(
            run_unblock(blocks, firewall, ip, now, ok).blocks,
            run_unblock(blocks, firewall, ip, now, ok).firewall,
        ),
{
}

/// A block and an unblock of one address that come together are run one
/// after the other, in one order or the other. Either way the records end
/// in agreement with the firewall, and they say what the last command that
/// was carried out has made of it.
pub proof fn lemma_either_order(
    blocks: Map<Seq<char>, BlockState>,
    firewall: Set<Seq<char>>,
    ip: Seq<char>,
    block_at: u64,
    unblock_at: u64,
    duration: u64,
    block_ok: bool,
    unblock_ok: bool,
)
    requires
        valid_ip(ip),
    ensures
        ({
            let blocked = run_block(blocks, firewall, ip, block_at, duration, block_ok);
            let then_lifted = run_unblock(
                blocked.blocks,
                blocked.firewall,
                ip,
                unblock_at,
                unblock_ok,
            );
            let lifted = run_unblock(blocks, firewall, ip, unblock_at, unblock_ok);
            let then_blocked = run_block(
                lifted.blocks,
                lifted.firewall,
                ip,
                block_at,
                duration,
                block_ok,
            );
            &&& then_lifted.blocks.dom().contains(ip) <==> then_lifted.firewall.contains(ip)
            &&& then_blocked.blocks.dom().contains(ip) <==> then_blocked.firewall.contains(ip)
            &&& then_lifted.commands == 1 && unblock_ok ==> !then_lifted.blocks.dom().contains(ip)
            &&& then_blocked.commands == 1 && block_ok ==> then_blocked.blocks.dom().contains(ip)
        }),
{
}

} // verus!
