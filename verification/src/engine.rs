//! The scan schedule: which host is probed next, when the scan waits, and
//! when it collects what it has started.
//!
//! The engine decides and keeps the books; the program that owns it carries
//! out each action and reports every probe that ended.

use vstd::prelude::*;
use crate::block::{NetworkBlock, host_total};
use crate::control::RunState;
use crate::probe::{HostTarget, ProbeOutcome};

verus! {

/// The limits of a run.
#[derive(Clone, Copy, Debug, PartialEq, Eq, Structural)]
pub struct EngineConfig {
    /// Probes that may have a network call outstanding at once.
    pub connection_cap: usize,
    /// Dispatches per window.
    pub rate_limit: u32,
    /// Length of a window in milliseconds.
    pub window_ms: u64,
    /// Started probes that may wait to be collected.
    pub chunk_size: usize,
    /// Probes that are awaited at once while collecting.
    pub drain_concurrency: usize,
    /// Time between two looks at the flags while paused, in milliseconds.
    pub pause_poll_ms: u64,
}

impl EngineConfig {
    /// Every limit is at least one.
    pub open spec fn valid(&self) -> bool {
        &&& self.connection_cap >= 1
        &&& self.rate_limit >= 1
        &&& self.window_ms >= 1
        &&& self.chunk_size >= 1
        &&& self.drain_concurrency >= 1
        &&& self.pause_poll_ms >= 1
    }

    pub fn is_valid(&self) -> (b: bool)
        ensures
            b == self.valid(),
    {
        self.connection_cap >= 1 && self.rate_limit >= 1 && self.window_ms >= 1 && self.chunk_size
            >= 1 && self.drain_concurrency >= 1 && self.pause_poll_ms >= 1
    }

    /// 2000 connections, 800 dispatches a second, chunks of 500 collected 100
    /// at a time, a look at the flags every 100 ms.
    pub fn reference() -> (c: EngineConfig)
        ensures
            c.valid(),
            c == (EngineConfig {
                connection_cap: 2000,
                rate_limit: 800,
                window_ms: 1000,
                chunk_size: 500,
                drain_concurrency: 100,
                pause_poll_ms: 100,
            }),
    {
        EngineConfig {
            connection_cap: 2000,
            rate_limit: 800,
            window_ms: 1000,
            chunk_size: 500,
            drain_concurrency: 100,
            pause_poll_ms: 100,
        }
    }
}

/// A host that answered, as a match or as a possible match.
#[derive(Clone, Copy, Debug, PartialEq, Eq, Structural)]
pub struct HostResult {
    pub target: HostTarget,
    pub status: u16,
}

/// What the owner of the engine does next.
#[derive(Clone, Copy, Debug, PartialEq, Eq, Structural)]
pub enum Action {
    /// Start a probe of this host.
    Dispatch(HostTarget),
    /// Await `count` started probes, at most `concurrency` at once, and
    /// report each as it ends.
    Drain { count: usize, concurrency: usize },
    /// The scan is paused: look again after this many milliseconds.
    PauseWait { millis: u64 },
    /// The window is used up: look again after this many milliseconds.
    RateWait { millis: u64 },
    /// Nothing is left to do.
    Finished,
}

/// The state of a run.
pub struct EngineView {
    pub config: EngineConfig,
    pub blocks: Seq<NetworkBlock>,
    /// The block that is being scanned.
    pub block_index: nat,
    /// Hosts of that block that have been dispatched.
    pub offset: nat,
    /// Probes that were started and have not been reported.
    pub pending: nat,
    /// Reports that the collection under way still waits for.
    pub draining: nat,
    /// Dispatches in the window.
    pub window_count: nat,
    /// When the window began.
    pub window_start: u64,
    /// Whether a stop was seen.
    pub halted: bool,
    pub results: Seq<HostResult>,
}

impl EngineView {
    pub open spec fn wf(self) -> bool {
        &&& self.config.valid()
        &&& self.draining <= self.pending <= self.config.chunk_size
        &&& self.window_count <= self.config.rate_limit
        &&& self.block_index <= self.blocks.len()
        &&& self.block_index < self.blocks.len() ==> self.offset
            <= self.blocks[self.block_index as int].hosts().len()
        &&& self.block_index == self.blocks.len() ==> self.offset == 0
    }
}

/// The hosts of a block as targets, ascending.
pub open spec fn targets_of(block: NetworkBlock) -> Seq<HostTarget> {
    Seq::new(
        block.hosts().len(),
        |i: int| HostTarget { addr: block.hosts()[i], source: block.source() },
    )
}

/// The targets of the first `n` blocks, block after block.
pub open spec fn targets_before(blocks: Seq<NetworkBlock>, n: nat) -> Seq<HostTarget>
    decreases n,
{
    if n == 0 {
        Seq::empty()
    } else {
        targets_before(blocks, (n - 1) as nat) + targets_of(blocks[n - 1])
    }
}

/// Every target of a run in the order of dispatch.
pub open spec fn all_targets(blocks: Seq<NetworkBlock>) -> Seq<HostTarget> {
    targets_before(blocks, blocks.len())
}

/// The targets that have been dispatched.
pub open spec fn dispatched(v: EngineView) -> Seq<HostTarget> {
    if v.block_index < v.blocks.len() {
        targets_before(v.blocks, v.block_index) + targets_of(v.blocks[v.block_index as int]).take(
            v.offset as int,
        )
    } else {
        targets_before(v.blocks, v.blocks.len())
    }
}

/// Milliseconds since the window began; zero for a clock that went back.
pub open spec fn elapsed(v: EngineView, now: u64) -> nat {
    if now >= v.window_start {
        (now - v.window_start) as nat
    } else {
        0
    }
}

/// Begins to collect everything that was started.
pub open spec fn start_drain(v: EngineView) -> (EngineView, Action) {
    (
        EngineView { draining: v.pending, ..v },
        Action::Drain { count: v.pending as usize, concurrency: v.config.drain_concurrency },
    )
}

/// Collects what was started, if anything, and ends otherwise.
pub open spec fn drain_or_finish(v: EngineView) -> (EngineView, Action) {
    if v.pending > 0 {
        start_drain(v)
    } else {
        (v, Action::Finished)
    }
}

/// The step with the cursor on a host that is due: wait while paused, wait
/// for the end of a used up window, else dispatch the host.
pub open spec fn dispatch_from(v: EngineView, paused: bool, now: u64) -> (EngineView, Action) {
    if v.block_index >= v.blocks.len() {
        drain_or_finish(v)
    } else if paused {
        (v, Action::PauseWait { millis: v.config.pause_poll_ms })
    } else if v.window_count >= v.config.rate_limit && elapsed(v, now) < v.config.window_ms {
        (v, Action::RateWait { millis: (v.config.window_ms - elapsed(v, now)) as u64 })
    } else {
        let w = if v.window_count >= v.config.rate_limit {
            EngineView { window_start: now, window_count: 0, ..v }
        } else {
            v
        };
        let block = w.blocks[w.block_index as int];
        let target = HostTarget { addr: block.hosts()[w.offset as int], source: block.source() };
        (
            EngineView {
                offset: w.offset + 1,
                pending: w.pending + 1,
                window_count: w.window_count + 1,
                ..w
            },
            Action::Dispatch(target),
        )
    }
}

/// One step of the schedule, in this order of precedence:
/// a collection under way goes on;
/// a stop, now or earlier, collects what was started and then ends the run;
/// a full chunk is collected;
/// with no block left, what was started is collected and the run ends;
/// at the end of a block what was started is collected, then the next block begins;
/// otherwise the next host is due.
pub open spec fn decide(v: EngineView, stop: bool, paused: bool, now: u64) -> (EngineView, Action) {
    if v.draining > 0 {
        (v, Action::Drain { count: v.draining as usize, concurrency: v.config.drain_concurrency })
    } else if v.halted || stop {
        drain_or_finish(EngineView { halted: true, ..v })
    } else if v.pending >= v.config.chunk_size {
        start_drain(v)
    } else if v.block_index >= v.blocks.len() {
        drain_or_finish(v)
    } else if v.offset >= v.blocks[v.block_index as int].hosts().len() {
        if v.pending > 0 {
            start_drain(v)
        } else {
            dispatch_from(EngineView { block_index: v.block_index + 1, offset: 0, ..v }, paused, now)
        }
    } else {
        dispatch_from(v, paused, now)
    }
}

/// The state after the report of one probe: it is no longer pending, and
/// a match or a possible match joins the results.
pub open spec fn completed(v: EngineView, target: HostTarget, outcome: ProbeOutcome) -> EngineView {
    EngineView {
        pending: if v.pending > 0 {
            (v.pending - 1) as nat
        } else {
            0
        },
        draining: if v.draining > 0 {
            (v.draining - 1) as nat
        } else {
            0
        },
        results: match outcome {
            ProbeOutcome::Matched { status, .. } => v.results.push(HostResult { target, status }),
            ProbeOutcome::PossibleMatch { status } => v.results.push(
                HostResult { target, status },
            ),
            ProbeOutcome::NoMatch => v.results,
        },
        ..v
    }
}

/// The books of a run, all but the results.
struct Cursor {
    config: EngineConfig,
    blocks: Vec<NetworkBlock>,
    block_index: usize,
    offset: u64,
    pending: usize,
    draining: usize,
    window_count: u32,
    window_start: u64,
    halted: bool,
}

impl Cursor {
    #[verifier::type_invariant]
    spec fn inv(self) -> bool {
        self.with(Seq::empty()).wf()
    }

    spec fn with(&self, results: Seq<HostResult>) -> EngineView {
        EngineView {
            config: self.config,
            blocks: self.blocks@,
            block_index: self.block_index as nat,
            offset: self.offset as nat,
            pending: self.pending as nat,
            draining: self.draining as nat,
            window_count: self.window_count as nat,
            window_start: self.window_start,
            halted: self.halted,
            results,
        }
    }

    fn start_drain(&mut self, Ghost(results): Ghost<Seq<HostResult>>) -> (action: Action)
        ensures
            (final(self).with(results), action) == start_drain(old(self).with(results)),
    {
        proof {
            use_type_invariant(&*self);
        }
        self.draining = self.pending;
        Action::Drain { count: self.pending, concurrency: self.config.drain_concurrency }
    }

    fn drain_or_finish(&mut self, Ghost(results): Ghost<Seq<HostResult>>) -> (action: Action)
        ensures
            (final(self).with(results), action) == drain_or_finish(old(self).with(results)),
    {
        if self.pending > 0 {
            self.start_drain(Ghost(results))
        } else {
            Action::Finished
        }
    }

    fn dispatch_from(&mut self, paused: bool, now_ms: u64, Ghost(results): Ghost<Seq<HostResult>>) -> (action:
        Action)
        requires
            old(self).draining == 0,
            old(self).pending < old(self).config.chunk_size,
            old(self).block_index < old(self).blocks.len() ==> old(self).offset < old(
                self,
            ).blocks[old(self).block_index as int].hosts().len(),
        ensures
            (final(self).with(results), action) == dispatch_from(
                old(self).with(results),
                paused,
                now_ms,
            ),
    {
        proof {
            use_type_invariant(&*self);
        }
        if self.block_index >= self.blocks.len() {
            return self.drain_or_finish(Ghost(results));
        }
        if paused {
            return Action::PauseWait { millis: self.config.pause_poll_ms };
        }
        if self.window_count >= self.config.rate_limit {
            let elapsed: u64 = if now_ms >= self.window_start {
                now_ms - self.window_start
            } else {
                0
            };
            if elapsed < self.config.window_ms {
                return Action::RateWait { millis: self.config.window_ms - elapsed };
            }
            self.window_count = 0;
            self.window_start = now_ms;
        }
        let block = self.blocks[self.block_index];
        match block.host(self.offset) {
            Some(addr) => {
                self.offset = self.offset + 1;
                self.pending = self.pending + 1;
                self.window_count = self.window_count + 1;
                Action::Dispatch(HostTarget { addr, source: block.source() })
            },
            None => Action::Finished,
        }
    }

    fn next(&mut self, stop: bool, paused: bool, now_ms: u64, Ghost(results): Ghost<Seq<HostResult>>) -> (action:
        Action)
        ensures
            (final(self).with(results), action) == decide(
                old(self).with(results),
                stop,
                paused,
                now_ms,
            ),
    {
        proof {
            use_type_invariant(&*self);
        }
        if self.draining > 0 {
            return Action::Drain {
                count: self.draining,
                concurrency: self.config.drain_concurrency,
            };
        }
        if self.halted || stop {
            self.halted = true;
            return self.drain_or_finish(Ghost(results));
        }
        if self.pending >= self.config.chunk_size {
            return self.start_drain(Ghost(results));
        }
        if self.block_index >= self.blocks.len() {
            return self.drain_or_finish(Ghost(results));
        }
        let count: u64 = self.blocks[self.block_index].host_count();
        if self.offset >= count {
            if self.pending > 0 {
                return self.start_drain(Ghost(results));
            }
            self.offset = 0;
            self.block_index = self.block_index + 1;
            proof {
                if self.block_index < self.blocks.len() {
                    crate::block::lemma_host_count_positive(
                        self.blocks@[self.block_index as int].prefix_len(),
                    );
                }
            }
        }
        self.dispatch_from(paused, now_ms, Ghost(results))
    }

    /// Strikes one probe off the books.
    fn take_report(&mut self, Ghost(results): Ghost<Seq<HostResult>>)
        ensures
            final(self).with(results) == (EngineView {
                pending: if old(self).pending > 0 {
                    (old(self).pending - 1) as nat
                } else {
                    0
                },
                draining: if old(self).draining > 0 {
                    (old(self).draining - 1) as nat
                } else {
                    0
                },
                ..old(self).with(results)
            }),
    {
        proof {
            use_type_invariant(&*self);
        }
        if self.draining > 0 {
            self.draining = self.draining - 1;
        }
        if self.pending > 0 {
            self.pending = self.pending - 1;
        }
    }
}

/// The schedule of one run over a list of blocks.
pub struct ScanEngine {
    cursor: Cursor,
    results: Vec<HostResult>,
}

impl View for ScanEngine {
    type V = EngineView;

    closed spec fn view(&self) -> EngineView {
        self.cursor.with(self.results@)
    }
}

impl ScanEngine {
    /// An engine at the start of the first block, with a window that begins
    /// at `now_ms`; none when a limit is zero.
    pub fn new(config: EngineConfig, blocks: Vec<NetworkBlock>, now_ms: u64) -> (r: Option<
        ScanEngine,
    >)
        ensures
            r is Some <==> config.valid(),
            r matches Some(engine) ==> engine@ == (EngineView {
                config,
                blocks: blocks@,
                block_index: 0,
                offset: 0,
                pending: 0,
                draining: 0,
                window_count: 0,
                window_start: now_ms,
                halted: false,
                results: Seq::empty(),
            }) && engine@.wf(),
    {
        if config.is_valid() {
            let cursor = Cursor {
                config,
                blocks,
                block_index: 0,
                offset: 0,
                pending: 0,
                draining: 0,
                window_count: 0,
                window_start: now_ms,
                halted: false,
            };
            Some(ScanEngine { cursor, results: Vec::new() })
        } else {
            None
        }
    }

    /// Decides what happens next, given the flags and the time as the owner
    /// reads them.
    ///
    /// No host is dispatched once a stop was seen, and none while the flags
    /// ask for a stop or a pause.
    pub fn next(&mut self, flags: RunState, now_ms: u64) -> (action: Action)
        ensures
            (final(self)@, action) == decide(
                old(self)@,
                flags.stop_requested(),
                flags.paused(),
                now_ms,
            ),
            old(self)@.wf(),
            final(self)@.wf(),
            (flags.stop_requested() || flags.paused() || old(self)@.halted) ==> !(action is Dispatch),
            old(self)@.halted ==> final(self)@.halted,
    {
        proof {
            use_type_invariant(&self.cursor);
            lemma_dispatch_order(self@, flags.stop_requested(), flags.paused(), now_ms);
        }
        self.cursor.next(flags.stop_requested(), flags.paused(), now_ms, Ghost(self.results@))
    }

    /// Takes the report of one probe that ended.
    pub fn complete(&mut self, target: HostTarget, outcome: &ProbeOutcome)
        ensures
            final(self)@ == completed(old(self)@, target, *outcome),
            old(self)@.wf(),
            final(self)@.wf(),
    {
        proof {
            use_type_invariant(&self.cursor);
        }
        self.cursor.take_report(Ghost(self.results@));
        proof {
            use_type_invariant(&self.cursor);
        }
        match outcome {
            ProbeOutcome::Matched { status, .. } => {
                self.results.push(HostResult { target, status: *status });
            },
            ProbeOutcome::PossibleMatch { status } => {
                self.results.push(HostResult { target, status: *status });
            },
            ProbeOutcome::NoMatch => {},
        }
    }

    /// The matches and possible matches reported so far, in the order of
    /// the reports.
    pub fn results(&self) -> (r: &Vec<HostResult>)
        ensures
            r@ == self@.results,
    {
        &self.results
    }

    /// Probes that were started and have not been reported; never more than
    /// a chunk.
    pub fn pending(&self) -> (r: usize)
        ensures
            r == self@.pending,
            r <= self@.config.chunk_size,
    {
        proof {
            use_type_invariant(&self.cursor);
        }
        self.cursor.pending
    }

    /// Whether a stop was seen.
    pub fn halted(&self) -> (r: bool)
        ensures
            r == self@.halted,
    {
        self.cursor.halted
    }

    pub fn config(&self) -> (r: EngineConfig)
        ensures
            r == self@.config,
    {
        self.cursor.config
    }
}

/// The targets of a prefix of a block list do not depend on what follows.
proof fn lemma_targets_before_step(blocks: Seq<NetworkBlock>, n: nat)
    requires
        n < blocks.len(),
    ensures
        targets_before(blocks, n + 1) == targets_before(blocks, n) + targets_of(blocks[n as int]),
{
}

/// Hosts leave in the order of the block list and, within a block, in
/// ascending order, each once: every dispatch hands out the target that
/// follows those dispatched before, and no other step moves the cursor. A
/// run that ends without a stop has dispatched every target and has nothing
/// pending. A dispatch happens only with no stop seen or asked for, no
/// pause, and room in the chunk.
pub proof fn lemma_dispatch_order(v: EngineView, stop: bool, paused: bool, now: u64)
    requires
        v.wf(),
    ensures
        decide(v, stop, paused, now).0.wf(),
        decide(v, stop, paused, now).1 matches Action::Dispatch(target) ==> {
            &&& dispatched(decide(v, stop, paused, now).0) == dispatched(v).push(target)
            &&& !stop && !paused && !v.halted
            &&& v.pending < v.config.chunk_size
            &&& decide(v, stop, paused, now).0.pending == v.pending + 1
        },
        !(decide(v, stop, paused, now).1 is Dispatch) ==> dispatched(decide(v, stop, paused, now).0)
            == dispatched(v),
        decide(v, stop, paused, now).1 is Finished ==> decide(v, stop, paused, now).0.pending == 0,
        decide(v, stop, paused, now).1 is Finished && !decide(v, stop, paused, now).0.halted
            ==> dispatched(decide(v, stop, paused, now).0) == all_targets(v.blocks),
        dispatched(v).len() <= all_targets(v.blocks).len(),
{
    let (w, action) = decide(v, stop, paused, now);
    if v.block_index < v.blocks.len() {
        let block = v.blocks[v.block_index as int];
        lemma_targets_before_step(v.blocks, v.block_index);
        lemma_targets_prefix(v.blocks, v.block_index + 1);
        assert(targets_of(block).take(targets_of(block).len() as int) == targets_of(block));
        if v.offset < block.hosts().len() {
            assert(targets_of(block).take(v.offset as int + 1) == targets_of(block).take(
                v.offset as int,
            ).push(targets_of(block)[v.offset as int]));
        } else if v.block_index + 1 < v.blocks.len() {
            let next = v.blocks[v.block_index as int + 1];
            crate::block::lemma_host_count_positive(next.prefix_len());
            assert(targets_of(next).take(0) == Seq::<HostTarget>::empty());
            assert(targets_of(next).take(1) == Seq::<HostTarget>::empty().push(targets_of(next)[0]));
        }
    } else {
        lemma_targets_prefix(v.blocks, v.block_index);
    }
}

/// The targets of the first blocks are no more than all targets.
proof fn lemma_targets_prefix(blocks: Seq<NetworkBlock>, n: nat)
    requires
        n <= blocks.len(),
    ensures
        targets_before(blocks, n).len() <= all_targets(blocks).len(),
    decreases blocks.len() - n,
{
    if n < blocks.len() {
        lemma_targets_prefix(blocks, n + 1);
    }
}

/// A run has as many targets as its blocks have hosts.
pub proof fn lemma_target_count(blocks: Seq<NetworkBlock>)
    ensures
        all_targets(blocks).len() == host_total(blocks),
{
    lemma_targets_counted(blocks, blocks.len());
    assert(blocks.take(blocks.len() as int) == blocks);
}

proof fn lemma_targets_counted(blocks: Seq<NetworkBlock>, n: nat)
    requires
        n <= blocks.len(),
    ensures
        targets_before(blocks, n).len() == host_total(blocks.take(n as int)),
    decreases n,
{
    if n > 0 {
        lemma_targets_counted(blocks, (n - 1) as nat);
        assert(blocks.take(n as int).drop_last() == blocks.take(n - 1));
    }
}

/// The window bounds the rate: a dispatch either is one more in a window
/// that is not used up, or opens a new window after the old one has lasted
/// its full time. No other step touches the window.
pub proof fn lemma_rate_window(v: EngineView, stop: bool, paused: bool, now: u64)
    requires
        v.wf(),
    ensures
        decide(v, stop, paused, now).0.window_count <= v.config.rate_limit,
        decide(v, stop, paused, now).1 is Dispatch ==> {
            ||| {
                &&& v.window_count < v.config.rate_limit
                &&& decide(v, stop, paused, now).0.window_start == v.window_start
                &&& decide(v, stop, paused, now).0.window_count == v.window_count + 1
            }
            ||| {
                &&& v.window_count == v.config.rate_limit
                &&& elapsed(v, now) >= v.config.window_ms
                &&& decide(v, stop, paused, now).0.window_start == now
                &&& decide(v, stop, paused, now).0.window_count == 1
            }
        },
        !(decide(v, stop, paused, now).1 is Dispatch) ==> {
            &&& decide(v, stop, paused, now).0.window_start == v.window_start
            &&& decide(v, stop, paused, now).0.window_count == v.window_count
        },
        decide(v, stop, paused, now).1 matches Action::RateWait { millis } ==> 1 <= millis
            <= v.config.window_ms && elapsed(v, now) + millis == v.config.window_ms,
{
}

/// A stop is final: from the step that sees it on, whatever the flags say
/// later, no host is dispatched, and what was started is still collected
/// before the run ends.
pub proof fn lemma_stop_is_final(v: EngineView, stop: bool, paused: bool, now: u64)
    requires
        v.wf(),
        v.halted || stop,
    ensures
        !(decide(v, stop, paused, now).1 is Dispatch),
        v.draining == 0 ==> decide(v, stop, paused, now).0.halted,
        v.halted ==> decide(v, stop, paused, now).0.halted,
        v.pending > 0 ==> decide(v, stop, paused, now).1 is Drain,
        v.pending == 0 ==> decide(v, stop, paused, now).1 is Finished,
        decide(v, stop, paused, now).0.results == v.results,
{
}

/// A report is taken whether or not the run was stopped: the results grow by
/// every match and possible match, and the stop stays.
pub proof fn lemma_report_after_stop(v: EngineView, target: HostTarget, outcome: ProbeOutcome)
    requires
        v.wf(),
    ensures
        completed(v, target, outcome).wf(),
        completed(v, target, outcome).halted == v.halted,
        !(outcome is NoMatch) ==> completed(v, target, outcome).results.len() == v.results.len()
            + 1 && completed(v, target, outcome).results.last().target == target,
        outcome is NoMatch ==> completed(v, target, outcome).results == v.results,
        dispatched(completed(v, target, outcome)) == dispatched(v),
{
}

} // verus!
