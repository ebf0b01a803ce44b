//! The block lifecycle. A block or an unblock is carried out in steps: the
//! functions here decide, whoever drives them talks to the firewall and
//! hands back what it answered.
use crate::ipv4::{is_valid_ip, valid_ip};
use crate::strmap::StrMap;
use crate::tracker::Tracker;
use vstd::prelude::*;

verus! {

/// The record of one block: since when it is on record and when it is due
/// to be lifted. A block that was found in place, not made, has no time at
/// which it is due.
#[derive(Clone, Copy, Debug, PartialEq, Eq)]
pub struct BlockState {
    pub blocked_since: u64,
    pub expires_at: Option<u64>,
}

/// How a block request ended well.
#[derive(Clone, Copy, Debug, PartialEq, Eq, Structural)]
pub enum BlockOutcome {
    /// The firewall has carried out the command; the block is to be lifted
    /// at `expires_at`.
    Blocked { expires_at: u64 },
    /// The firewall was blocking the address already: no command was given
    /// and no expiry is ordered.
    AlreadyBlocked,
}

/// Why a request failed.
#[derive(Clone, Copy, Debug, PartialEq, Eq, Structural)]
pub enum BlockError {
    /// The address is not a well-formed IPv4 address.
    Malformed,
    /// The firewall did not carry out the command.
    Backend,
}

/// What the firewall has answered so far in the request at hand.
#[derive(Clone, Copy, Debug, PartialEq, Eq, Structural)]
pub enum Answer {
    /// It has not been asked anything yet.
    NotAsked,
    /// It was asked whether it blocks the address.
    Status { blocked: bool },
    /// It was given the command, and carried it out or not.
    Executed { ok: bool },
}

/// What is to be done next in a request.
#[derive(Debug, PartialEq, Eq)]
pub enum Step<T> {
    /// Ask the firewall whether it blocks the address.
    Ask,
    /// Give the firewall the command of this request.
    Execute,
    /// The request is over.
    Finished(Result<T, BlockError>),
}

/// `now + duration`, held at the largest timestamp where the sum passes it.
pub open spec fn expiry(now: u64, duration: u64) -> u64 {
    if now + duration > u64::MAX {
        u64::MAX
    } else {
        (now + duration) as u64
    }
}

/// The record of a block made at `now`.
pub open spec fn fresh(now: u64, duration: u64) -> BlockState {
    BlockState { blocked_since: now, expires_at: Some(expiry(now, duration)) }
}

/// The record that stands for a block found in place at `now` by a block
/// request: it is never due.
pub open spec fn found(now: u64) -> BlockState {
    BlockState { blocked_since: now, expires_at: None }
}

/// The record that stands for a block found in place at `now` by an unblock
/// request: it is due at once.
pub open spec fn overdue(now: u64) -> BlockState {
    BlockState { blocked_since: now, expires_at: Some(now) }
}

/// `blocks` with a record for `ip`: the one it has, else `record`.
pub open spec fn adopt(
    blocks: Map<Seq<char>, BlockState>,
    ip: Seq<char>,
    record: BlockState,
) -> Map<Seq<char>, BlockState> {
    if blocks.dom().contains(ip) {
        blocks
    } else {
        blocks.insert(ip, record)
    }
}

/// What a block request for `ip` does next, given what the firewall has
/// answered. A malformed address ends the request at once, whatever the
/// answer. An address that the firewall blocks already gets no command and
/// no expiry: the request ends well with `AlreadyBlocked`.
pub open spec fn block_step(ip: Seq<char>, answer: Answer, now: u64, duration: u64) -> Step<
    BlockOutcome,
> {
    if !valid_ip(ip) {
        Step::Finished(Err(BlockError::Malformed))
    } else {
        match answer {
            Answer::NotAsked => Step::Ask,
            Answer::Status { blocked: true } => Step::Finished(Ok(BlockOutcome::AlreadyBlocked)),
            Answer::Status { blocked: false } => Step::Execute,
            Answer::Executed { ok: true } => Step::Finished(
                Ok(BlockOutcome::Blocked { expires_at: expiry(now, duration) }),
            ),
            Answer::Executed { ok: false } => Step::Finished(Err(BlockError::Backend)),
        }
    }
}

/// The records after that step of a block request. A report brings the
/// records in line with the firewall: a block found in place keeps the record
/// it has or gets one that is never due, and a record without a block behind
/// it is dropped. A command carried out is recorded with its expiry; a
/// malformed address or a failed command changes nothing.
pub open spec fn block_records(
    blocks: Map<Seq<char>, BlockState>,
    ip: Seq<char>,
    answer: Answer,
    now: u64,
    duration: u64,
) -> Map<Seq<char>, BlockState> {
    if !valid_ip(ip) {
        blocks
    } else {
        match answer {
            Answer::NotAsked => blocks,
            Answer::Status { blocked: true } => adopt(blocks, ip, found(now)),
            Answer::Status { blocked: false } => blocks.remove(ip),
            Answer::Executed { ok: true } => blocks.insert(ip, fresh(now, duration)),
            Answer::Executed { ok: false } => blocks,
        }
    }
}

/// What an unblock request does next, given what the firewall has answered.
pub open spec fn unblock_step(answer: Answer) -> Step<()> {
    match answer {
        Answer::NotAsked => Step::Ask,
        Answer::Status { blocked: false } => Step::Finished(Ok(())),
        Answer::Status { blocked: true } => Step::Execute,
        Answer::Executed { ok: true } => Step::Finished(Ok(())),
        Answer::Executed { ok: false } => Step::Finished(Err(BlockError::Backend)),
    }
}

/// The records after that step of an unblock request for `ip`.
pub open spec fn unblock_records(
    blocks: Map<Seq<char>, BlockState>,
    ip: Seq<char>,
    answer: Answer,
    now: u64,
) -> Map<Seq<char>, BlockState> {
    match answer {
        Answer::NotAsked => blocks,
        Answer::Status { blocked: false } => blocks.remove(ip),
        Answer::Status { blocked: true } => adopt(blocks, ip, overdue(now)),
        Answer::Executed { ok: true } => blocks.remove(ip),
        Answer::Executed { ok: false } => blocks,
    }
}

/// The block of `ip` is recorded with a time at which it is due, and that
/// time is up at `now`.
pub open spec fn due(blocks: Map<Seq<char>, BlockState>, ip: Seq<char>, now: u64) -> bool {
    blocks.dom().contains(ip) && match blocks[ip].expires_at {
        Some(at) => at <= now,
        None => false,
    }
}

/// What a timer set for the block of `ip` does next when it fires at `now`.
/// Where the block is not due, because it is gone, was never to expire or
/// was made anew since the timer was set, the timer has nothing to do;
/// where it is due, the timer goes the way of an unblock request.
pub open spec fn expire_step(
    blocks: Map<Seq<char>, BlockState>,
    ip: Seq<char>,
    answer: Answer,
    now: u64,
) -> Step<()> {
    if due(blocks, ip, now) {
        unblock_step(answer)
    } else {
        Step::Finished(Ok(()))
    }
}

/// The records after that step of a timer: unchanged where the block is not
/// due, else as after the step of an unblock request.
pub open spec fn expire_records(
    blocks: Map<Seq<char>, BlockState>,
    ip: Seq<char>,
    answer: Answer,
    now: u64,
) -> Map<Seq<char>, BlockState> {
    if due(blocks, ip, now) {
        unblock_records(blocks, ip, answer, now)
    } else {
        blocks
    }
}

/// The blocks in force, one record at most per address, and how long a block
/// lasts. The view maps each blocked address to its record.
pub struct BlockManager {
    blocks: StrMap<BlockState>,
    block_duration: u64,
}

impl View for BlockManager {
    type V = Map<Seq<char>, BlockState>;

    closed spec fn view(&self) -> Map<Seq<char>, BlockState> {
        self.blocks@
    }
}

impl BlockManager {
    /// How long a block lasts.
    pub closed spec fn duration(&self) -> u64 {
        self.block_duration
    }

    /// A manager without blocks, whose blocks will last `block_duration`.
    pub fn new(block_duration: u64) -> (manager: Self)
        ensures
            manager@ == Map::<Seq<char>, BlockState>::empty(),
            manager.duration() == block_duration,
    {
        BlockManager { blocks: StrMap::new(), block_duration }
    }

    /// How long a block lasts.
    pub fn block_duration(&self) -> (duration: u64)
        ensures
            duration == self.duration(),
    {
        self.block_duration
    }

    /// Tells whether a block of `ip` is recorded.
    pub fn is_blocked(&self, ip: &str) -> (blocked: bool)
        ensures
            blocked == self@.dom().contains(ip@),
    {
        self.blocks.contains_key(ip)
    }

    /// The record of the block of `ip`, if there is one.
    pub fn state(&self, ip: &str) -> (record: Option<BlockState>)
        ensures
            record == (if self@.dom().contains(ip@) {
                Some(self@[ip@])
            } else {
                None
            }),
    {
        match self.blocks.get(ip) {
            Some(record) => Some(*record),
            None => None,
        }
    }

    /// Tells whether a block of `ip` is recorded whose time is up at `now`.
    pub fn is_due(&self, ip: &str, now: u64) -> (yes: bool)
        ensures
            yes == due(self@, ip@, now),
    {
        match self.blocks.get(ip) {
            Some(record) => match record.expires_at {
                Some(at) => at <= now,
                None => false,
            },
            None => false,
        }
    }

    /// Records `record` for `ip` unless `ip` has a record.
    fn adopt(&mut self, ip: &str, record: BlockState)
        ensures
            final(self)@ == adopt(old(self)@, ip@, record),
            final(self).duration() == old(self).duration(),
    {
        if !self.blocks.contains_key(ip) {
            self.blocks.insert(ip.to_owned(), record);
        }
    }
}

/// When a block made at `now` is due, where blocks last `duration`.
fn expiry_of(now: u64, duration: u64) -> (expires_at: u64)
    ensures
        expires_at == expiry(now, duration),
{
    if duration > u64::MAX - now {
        u64::MAX
    } else {
        now + duration
    }
}

impl Tracker {
    /// One step of blocking `ip`, the address that a tracker has found over
    /// its threshold. Call it first with `Answer::NotAsked`, do
    /// what the step says and call again with the firewall's answer, until
    /// the step is `Finished`. A malformed `ip` is refused before anything is
    /// asked of the firewall. An address that the firewall blocks already is
    /// not blocked again and gets no expiry; if `blocks` had no record of it,
    /// it gets one that is never due. A block that was carried out is
    /// recorded in `blocks` as due at `now` plus the block duration.
    pub fn block_ip(blocks: &mut BlockManager, ip: &str, answer: Answer, now: u64) -> (step: Step<
        BlockOutcome,
    >)
        ensures
            step == block_step(ip@, answer, now, old(blocks).duration()),
            final(blocks)@ == block_records(old(blocks)@, ip@, answer, now, old(blocks).duration()),
            final(blocks).duration() == old(blocks).duration(),
    {
        if !is_valid_ip(ip) {
            return Step::Finished(Err(BlockError::Malformed));
        }
        match answer {
            Answer::NotAsked => Step::Ask,
            Answer::Status { blocked } => {
                if blocked {
                    blocks.adopt(ip, BlockState { blocked_since: now, expires_at: None });
                    Step::Finished(Ok(BlockOutcome::AlreadyBlocked))
                } else {
                    blocks.blocks.remove(ip);
                    Step::Execute
                }
            },
            Answer::Executed { ok } => {
                if ok {
                    let expires_at = expiry_of(now, blocks.block_duration);
                    blocks.blocks.insert(
                        ip.to_owned(),
                        BlockState { blocked_since: now, expires_at: Some(expires_at) },
                    );
                    Step::Finished(Ok(BlockOutcome::Blocked { expires_at }))
                } else {
                    Step::Finished(Err(BlockError::Backend))
                }
            },
        }
    }
}

/// One step of lifting the block of `ip`, driven like `Tracker::block_ip`.
/// Where the firewall reports no block the request ends well without a
/// command; a command that fails leaves the record in place.
pub fn unblock_ip(blocks: &mut BlockManager, ip: &str, answer: Answer, now: u64) -> (step: Step<()>)
    ensures
        step == unblock_step(answer),
        final(blocks)@ == unblock_records(old(blocks)@, ip@, answer, now),
        final(blocks).duration() == old(blocks).duration(),
{
    match answer {
        Answer::NotAsked => Step::Ask,
        Answer::Status { blocked } => {
            if blocked {
                blocks.adopt(ip, BlockState { blocked_since: now, expires_at: Some(now) });
                Step::Execute
            } else {
                blocks.blocks.remove(ip);
                Step::Finished(Ok(()))
            }
        },
        Answer::Executed { ok } => {
            if ok {
                blocks.blocks.remove(ip);
                Step::Finished(Ok(()))
            } else {
                Step::Finished(Err(BlockError::Backend))
            }
        },
    }
}

/// One step of the timer that was set for the block of `ip`, fired at `now`
/// and driven like `unblock_ip`. A block that is not due at `now` is left
/// alone: the timer ends well at once, without a question or a command to
/// the firewall, so that a timer outlived by its block, or set for an
/// earlier block of the address, lifts nothing. A block that is due is
/// lifted as `unblock_ip` lifts it.
pub fn expire_ip(blocks: &mut BlockManager, ip: &str, answer: Answer, now: u64) -> (step: Step<()>)
    ensures
        step == expire_step(old(blocks)@, ip@, answer, now),
        final(blocks)@ == expire_records(old(blocks)@, ip@, answer, now),
        final(blocks).duration() == old(blocks).duration(),
{
    if blocks.is_due(ip, now) {
        unblock_ip(blocks, ip, answer, now)
    } else {
        Step::Finished(Ok(()))
    }
}

} // verus!
