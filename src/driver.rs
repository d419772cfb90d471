use vstd::prelude::*;

use crate::error::BenchError;
use crate::state::{cycle_next, Candidate, TestState};

verus! {

/// Wall-clock length of one paced round, in milliseconds.
pub const ROUND_BUDGET_MS: u64 = 6000;

/// Chunk threshold sent with every recovery request.
pub const REQUIRED_CHUNKS: u32 = 1;

/// Where a round stands.
#[derive(Clone, Copy, Debug, PartialEq, Eq, Structural)]
pub enum Phase {
    /// Requests of the round are still to be issued.
    Submitting,
    /// All requests are out; completions are being drained.
    Awaiting,
    /// All completions are in; the round waits out its budget.
    Pacing,
    /// Every round has run.
    Finished,
    /// A completion came back empty; the run stopped.
    Aborted,
}

/// One recovery request for the engine.
#[derive(Clone, Copy, Debug)]
pub struct RecoveryRequest {
    pub candidate: Candidate,
    pub required_chunks: u32,
    pub group: Option<u32>,
}

/// How long a round still sleeps, and whether it ran over its budget.
#[derive(Clone, Copy, Debug, PartialEq, Eq, Structural)]
pub struct PacingDecision {
    pub sleep_ms: u64,
    pub overrun: bool,
}

/// What a finished run reports.
#[derive(Clone, Copy, Debug, PartialEq, Eq, Structural)]
pub struct RunReport {
    pub rounds: usize,
    pub total_bytes: u128,
    pub kib_per_block: u128,
    pub overruns: usize,
}

/// The number of groups that requests are spread over.
pub open spec fn group_count(n_cores: nat) -> nat {
    (if n_cores > 5 {
        n_cores
    } else {
        5
    }) / 5
}

/// The group hint of the request in `slot` of a round.
pub fn locality_hint(slot: u32, n_cores: usize) -> (r: u32)
    ensures
        r == slot as nat % group_count(n_cores as nat),
{
    let widest: usize = if n_cores > 5 {
        n_cores
    } else {
        5
    };
    let groups: usize = widest / 5;
    let hint = (slot as usize) % groups;
    assert(hint <= slot) by (nonlinear_arith)
        requires
            hint == (slot as usize) % groups,
            groups > 0,
    ;
    hint as u32
}

/// The pacing of a round that took `elapsed_ms`.
pub open spec fn pacing_spec(elapsed_ms: u64) -> PacingDecision {
    if elapsed_ms < ROUND_BUDGET_MS {
        PacingDecision { sleep_ms: (ROUND_BUDGET_MS - elapsed_ms) as u64, overrun: false }
    } else {
        PacingDecision { sleep_ms: 0, overrun: true }
    }
}

/// The sleep that brings a round that took `elapsed_ms` up to its budget: a round under
/// budget sleeps the rest of it, one at or over budget does not sleep and is an overrun.
pub fn pacing_delay(elapsed_ms: u64) -> (d: PacingDecision)
    ensures
        d == pacing_spec(elapsed_ms),
        elapsed_ms < ROUND_BUDGET_MS ==> elapsed_ms + d.sleep_ms == ROUND_BUDGET_MS && !d.overrun,
        elapsed_ms >= ROUND_BUDGET_MS ==> d.sleep_ms == 0 && d.overrun,
{
    if elapsed_ms < ROUND_BUDGET_MS {
        PacingDecision { sleep_ms: ROUND_BUDGET_MS - elapsed_ms, overrun: false }
    } else {
        PacingDecision { sleep_ms: 0, overrun: true }
    }
}

/// Kibibytes per block for a run that recovered `total_bytes` over `num_blocks` blocks.
pub fn throughput_kib_per_block(total_bytes: u128, num_blocks: usize) -> (r: u128)
    requires
        num_blocks > 0,
    ensures
        r == total_bytes / 1024 / (num_blocks as u128),
{
    total_bytes / 1024 / (num_blocks as u128)
}

/// The mean of a total over the blocks of a run (a block time, from the run's total).
pub fn per_block(total: u128, num_blocks: usize) -> (r: u128)
    requires
        num_blocks > 0,
    ensures
        r == total / (num_blocks as u128),
{
    total / (num_blocks as u128)
}

/// The sum of a sequence of byte counts.
pub open spec fn seq_sum(s: Seq<u64>) -> int
    decreases s.len(),
{
    if s.len() == 0 {
        0
    } else {
        s[0] + seq_sum(s.drop_first())
    }
}

/// Whole mebibytes in the sum of per-peer byte counters.
pub fn total_mib(per_peer: &Vec<u64>) -> (r: u128)
    requires
        per_peer.len() <= u64::MAX,
    ensures
        r == seq_sum(per_peer@) / (1024 * 1024) as int,
{
    let mut sum: u128 = 0;
    let mut i: usize = per_peer.len();
    while i > 0
        invariant
            i <= per_peer.len(),
            per_peer.len() <= u64::MAX,
            sum == seq_sum(per_peer@.subrange(i as int, per_peer.len() as int)),
            sum <= (per_peer.len() - i) * (u64::MAX as int),
        decreases i,
    {
        let ghost tail = per_peer@.subrange(i as int, per_peer.len() as int);
        assert(per_peer@.subrange(i - 1, per_peer.len() as int).drop_first() == tail);
        sum = sum + per_peer[i - 1] as u128;
        i = i - 1;
    }
    assert(per_peer@.subrange(0, per_peer.len() as int) == per_peer@);
    sum / (1024 * 1024)
}

/// The phase a round starts in.
pub open spec fn round_start_phase(round: nat, num_blocks: nat, n_cores: nat) -> Phase {
    if round >= num_blocks {
        Phase::Finished
    } else if n_cores == 0 {
        Phase::Pacing
    } else {
        Phase::Submitting
    }
}

/// The decisions of a benchmark run: which request goes out next, when a round is drained,
/// how long it sleeps, and what it adds up to. The caller does the sending, the waiting and
/// the sleeping, and hands each outcome back.
pub struct RoundDriver {
    pub num_blocks: usize,
    pub n_cores: usize,
    pub round: usize,
    pub submitted: usize,
    pub drained: usize,
    pub completions: usize,
    pub round_bytes: u128,
    pub total_bytes: u128,
    pub round_times: Vec<u64>,
    pub overruns: usize,
    pub phase: Phase,
}

impl RoundDriver {
    /// Counters consistent with the phase, and bounds that keep every sum in range.
    pub open spec fn wf(&self) -> bool {
        &&& self.n_cores <= u32::MAX
        &&& self.num_blocks * self.n_cores <= usize::MAX
        &&& self.round <= self.num_blocks
        &&& self.round_times.len() == self.round
        &&& self.overruns <= self.round
        &&& self.drained <= self.submitted <= self.n_cores
        &&& self.completions == self.round * self.n_cores + self.drained
        &&& self.round_bytes <= self.drained * (u64::MAX as int)
        &&& self.total_bytes <= self.completions * (u64::MAX as int)
        &&& match self.phase {
            Phase::Submitting => self.round < self.num_blocks && self.submitted < self.n_cores
                && self.drained == 0,
            Phase::Awaiting => self.round < self.num_blocks && self.submitted == self.n_cores
                && self.drained < self.n_cores,
            Phase::Pacing => self.round < self.num_blocks && self.submitted == self.n_cores
                && self.drained == self.n_cores,
            Phase::Finished => self.round == self.num_blocks && self.submitted == 0
                && self.drained == 0,
            Phase::Aborted => self.round < self.num_blocks && self.drained < self.n_cores,
        }
    }

    /// The driver after one more request of the round went out.
    pub open spec fn after_submission(self) -> RoundDriver {
        let submitted = (self.submitted + 1) as usize;
        RoundDriver {
            submitted,
            phase: if submitted == self.n_cores {
                Phase::Awaiting
            } else {
                Phase::Submitting
            },
            ..self
        }
    }

    /// The driver after one completion of `size` bytes was drained.
    pub open spec fn after_completion(self, size: u64) -> RoundDriver {
        let drained = (self.drained + 1) as usize;
        RoundDriver {
            drained,
            completions: (self.completions + 1) as usize,
            round_bytes: (self.round_bytes + size) as u128,
            total_bytes: (self.total_bytes + size) as u128,
            phase: if drained == self.n_cores {
                Phase::Pacing
            } else {
                Phase::Awaiting
            },
            ..self
        }
    }

    /// A run of `num_blocks` rounds of `n_cores` requests each.
    pub fn new(num_blocks: usize, n_cores: usize) -> (d: RoundDriver)
        requires
            n_cores <= u32::MAX,
            num_blocks * n_cores <= usize::MAX,
        ensures
            d.wf(),
            d.num_blocks == num_blocks,
            d.n_cores == n_cores,
            d.round == 0,
            d.submitted == 0,
            d.drained == 0,
            d.round_bytes == 0,
            d.total_bytes == 0,
            d.round_times@ == Seq::<u64>::empty(),
            d.overruns == 0,
            d.phase == round_start_phase(0, num_blocks as nat, n_cores as nat),
    {
        let phase = if num_blocks == 0 {
            Phase::Finished
        } else if n_cores == 0 {
            Phase::Pacing
        } else {
            Phase::Submitting
        };
        assert(0 * (n_cores as int) == 0) by (nonlinear_arith);
        RoundDriver {
            num_blocks,
            n_cores,
            round: 0,
            submitted: 0,
            drained: 0,
            completions: 0,
            round_bytes: 0,
            total_bytes: 0,
            round_times: Vec::new(),
            overruns: 0,
            phase,
        }
    }

    /// Takes the next candidate and builds the request for the current slot of the round.
    pub fn next_submission(&mut self, state: &mut TestState) -> (req: RecoveryRequest)
        requires
            old(self).wf(),
            old(self).phase == Phase::Submitting,
            old(state).wf(),
            old(state).candidates.len() > 0,
        ensures
            final(self).wf(),
            *final(self) == old(self).after_submission(),
            final(state).wf(),
            *final(state) == (TestState {
                candidate_cursor: cycle_next(
                    old(state).candidate_cursor as nat,
                    old(state).candidates.len() as nat,
                ) as usize,
                ..*old(state)
            }),
            req.candidate == old(state).candidates@[old(state).candidate_cursor as int],
            req.required_chunks == REQUIRED_CHUNKS,
            req.group == Some((old(self).submitted as nat % group_count(
                old(self).n_cores as nat,
            )) as u32),
    {
        let candidate = state.next_candidate().unwrap();
        let group = locality_hint(self.submitted as u32, self.n_cores);
        self.submitted = self.submitted + 1;
        if self.submitted == self.n_cores {
            self.phase = Phase::Awaiting;
        }
        RecoveryRequest { candidate, required_chunks: REQUIRED_CHUNKS, group: Some(group) }
    }

    /// Drains one completion: its size is added to the round and the run, and an empty one
    /// aborts the run.
    pub fn on_completion(&mut self, result: Option<u64>) -> (r: Result<(), BenchError>)
        requires
            old(self).wf(),
            old(self).phase == Phase::Awaiting,
        ensures
            final(self).wf(),
            result is None ==> r == Err::<(), BenchError>(BenchError::AbortedRun) && *final(self) == (
            RoundDriver { phase: Phase::Aborted, ..*old(self) }),
            result matches Some(size) ==> r is Ok && *final(self) == old(self).after_completion(size),
    {
        match result {
            None => {
                self.phase = Phase::Aborted;
                Err(BenchError::AbortedRun)
            },
            Some(size) => {
                proof {
                    lemma_completion_fits(self.round as int, self.n_cores as int, self.num_blocks as int, self.drained as int);
                }
                self.drained = self.drained + 1;
                self.completions = self.completions + 1;
                self.round_bytes = self.round_bytes + size as u128;
                self.total_bytes = self.total_bytes + size as u128;
                if self.drained == self.n_cores {
                    self.phase = Phase::Pacing;
                }
                Ok(())
            },
        }
    }

    /// Closes a drained round that took `elapsed_ms`: records its time and overrun, and
    /// returns how long to sleep before the next round starts.
    pub fn end_round(&mut self, elapsed_ms: u64) -> (d: PacingDecision)
        requires
            old(self).wf(),
            old(self).phase == Phase::Pacing,
        ensures
            final(self).wf(),
            d == pacing_spec(elapsed_ms),
            final(self).round == old(self).round + 1,
            final(self).round_times@ == old(self).round_times@.push(elapsed_ms),
            final(self).overruns == old(self).overruns + (if d.overrun {
                1int
            } else {
                0
            }),
            final(self).submitted == 0,
            final(self).drained == 0,
            final(self).round_bytes == 0,
            final(self).total_bytes == old(self).total_bytes,
            final(self).num_blocks == old(self).num_blocks,
            final(self).n_cores == old(self).n_cores,
            final(self).phase == round_start_phase(
                final(self).round as nat,
                old(self).num_blocks as nat,
                old(self).n_cores as nat,
            ),
    {
        let d = pacing_delay(elapsed_ms);
        proof {
            lemma_next_round(self.round as int, self.n_cores as int);
        }
        self.round_times.push(elapsed_ms);
        if d.overrun {
            self.overruns = self.overruns + 1;
        }
        self.round = self.round + 1;
        self.submitted = 0;
        self.drained = 0;
        self.round_bytes = 0;
        self.phase = if self.round >= self.num_blocks {
            Phase::Finished
        } else if self.n_cores == 0 {
            Phase::Pacing
        } else {
            Phase::Submitting
        };
        d
    }

    /// The totals of a finished run.
    pub fn report(&self) -> (r: RunReport)
        requires
            self.wf(),
            self.phase == Phase::Finished,
            self.num_blocks > 0,
        ensures
            r.rounds == self.num_blocks,
            r.total_bytes == self.total_bytes,
            r.kib_per_block == self.total_bytes / 1024 / (self.num_blocks as u128),
            r.overruns == self.overruns,
    {
        RunReport {
            rounds: self.round,
            total_bytes: self.total_bytes,
            kib_per_block: throughput_kib_per_block(self.total_bytes, self.num_blocks),
            overruns: self.overruns,
        }
    }
}

/// Whether a configuration admits a run: the candidate count `n_cores * num_blocks` fits,
/// the cores fit a group index, and sizes are configured wherever candidates are needed.
pub open spec fn run_admissible(state: TestState) -> bool {
    let n = state.config.n_cores;
    let b = state.config.num_blocks;
    &&& n <= u32::MAX
    &&& n * b <= usize::MAX
    &&& (n * b == 0 || state.pov_sizes.len() > 0)
}

/// Mints the run's `n_cores * num_blocks` candidates and sets up the driver of its rounds;
/// where the configuration admits no run, nothing changes and there is no driver.
pub fn prepare_test(state: &mut TestState) -> (r: Option<RoundDriver>)
    requires
        old(state).wf(),
    ensures
        final(state).wf(),
        r is Some <==> run_admissible(*old(state)),
        r is None ==> *final(state) == *old(state),
        r matches Some(d) ==> {
            &&& d.wf()
            &&& d.num_blocks == old(state).config.num_blocks
            &&& d.n_cores == old(state).config.n_cores
            &&& d.round == 0
            &&& d.submitted == 0
            &&& d.drained == 0
            &&& d.total_bytes == 0
            &&& d.round_times@ == Seq::<u64>::empty()
            &&& d.overruns == 0
            &&& d.phase == round_start_phase(0, d.num_blocks as nat, d.n_cores as nat)
            &&& final(state).candidates@ == old(state).generated_candidates(
                (d.n_cores * d.num_blocks) as nat,
            )
            &&& final(state).candidate_cursor == 0
            &&& final(state).config == old(state).config
            &&& final(state).chunks == old(state).chunks
            &&& final(state).available_data == old(state).available_data
        },
{
    let n_cores = state.config.n_cores;
    let num_blocks = state.config.num_blocks;
    if n_cores > u32::MAX as usize {
        return None;
    }
    let count = match n_cores.checked_mul(num_blocks) {
        Some(c) => c,
        None => {
            return None;
        },
    };
    if count > 0 && state.pov_sizes.len() == 0 {
        return None;
    }
    state.generate_candidates(count);
    assert(num_blocks * n_cores == n_cores * num_blocks) by (nonlinear_arith);
    Some(RoundDriver::new(num_blocks, n_cores))
}

/// The driver after `k` more requests went out.
pub open spec fn submit_all(d: RoundDriver, k: nat) -> RoundDriver
    decreases k,
{
    if k == 0 {
        d
    } else {
        submit_all(d.after_submission(), (k - 1) as nat)
    }
}

/// The driver after the completions of `sizes` were drained, in that order.
pub open spec fn drain_all(d: RoundDriver, sizes: Seq<u64>) -> RoundDriver
    decreases sizes.len(),
{
    if sizes.len() == 0 {
        d
    } else {
        drain_all(d.after_completion(sizes[0]), sizes.drop_first())
    }
}

proof fn lemma_submit_rest(d: RoundDriver, k: nat)
    requires
        d.wf(),
        d.phase == Phase::Submitting,
        k == d.n_cores - d.submitted,
    ensures
        submit_all(d, k).wf(),
        submit_all(d, k).phase == Phase::Awaiting,
        submit_all(d, k).submitted == d.n_cores,
        submit_all(d, k).drained == d.drained,
        submit_all(d, k).round == d.round,
        submit_all(d, k).round_bytes == d.round_bytes,
        submit_all(d, k).total_bytes == d.total_bytes,
    decreases k,
{
    let e = d.after_submission();
    if k > 1 {
        lemma_submit_rest(e, (k - 1) as nat);
    }
}

proof fn lemma_drain_rest(d: RoundDriver, sizes: Seq<u64>)
    requires
        d.wf(),
        d.phase == Phase::Awaiting,
        sizes.len() == d.n_cores - d.drained,
    ensures
        drain_all(d, sizes).wf(),
        drain_all(d, sizes).phase == Phase::Pacing,
        drain_all(d, sizes).drained == d.n_cores,
        drain_all(d, sizes).round == d.round,
        drain_all(d, sizes).round_bytes == d.round_bytes + seq_sum(sizes),
        drain_all(d, sizes).total_bytes == d.total_bytes + seq_sum(sizes),
    decreases sizes.len(),
{
    lemma_completion_fits(d.round as int, d.n_cores as int, d.num_blocks as int, d.drained as int);
    let e = d.after_completion(sizes[0]);
    assert(e.wf());
    assert(sizes.drop_first().len() == 0 ==> seq_sum(sizes.drop_first()) == 0);
    if sizes.len() > 1 {
        lemma_drain_rest(e, sizes.drop_first());
    } else {
        assert(drain_all(e, sizes.drop_first()) == e);
    }
}

/// A round of `n_cores` requests issues exactly `n_cores` submissions before it awaits, and
/// drains exactly `n_cores` completions before its pacing begins; the sizes of those
/// completions add up to what the round's and the run's byte counters gained.
pub proof fn lemma_round_accounting(d: RoundDriver, sizes: Seq<u64>)
    requires
        d.wf(),
        d.phase == Phase::Submitting,
        d.submitted == 0,
        sizes.len() == d.n_cores,
    ensures
        submit_all(d, d.n_cores as nat).phase == Phase::Awaiting,
        submit_all(d, d.n_cores as nat).submitted == d.n_cores,
        submit_all(d, d.n_cores as nat).drained == 0,
        drain_all(submit_all(d, d.n_cores as nat), sizes).phase == Phase::Pacing,
        drain_all(submit_all(d, d.n_cores as nat), sizes).drained == d.n_cores,
        drain_all(submit_all(d, d.n_cores as nat), sizes).round == d.round,
        drain_all(submit_all(d, d.n_cores as nat), sizes).round_bytes == seq_sum(sizes),
        drain_all(submit_all(d, d.n_cores as nat), sizes).total_bytes == d.total_bytes + seq_sum(
            sizes,
        ),
{
    lemma_submit_rest(d, d.n_cores as nat);
    lemma_drain_rest(submit_all(d, d.n_cores as nat), sizes);
}

proof fn lemma_completion_fits(round: int, n: int, num_blocks: int, drained: int)
    requires
        0 <= round < num_blocks,
        0 <= drained < n,
    ensures
        round * n + drained + 1 <= num_blocks * n,
{
    assert((round + 1) * n <= num_blocks * n) by (nonlinear_arith)
        requires
            round + 1 <= num_blocks,
            n >= 0,
    ;
    assert((round + 1) * n == round * n + n) by (nonlinear_arith);
}

proof fn lemma_next_round(round: int, n: int)
    ensures
        (round + 1) * n == round * n + n,
{
    assert((round + 1) * n == round * n + n) by (nonlinear_arith);
}

} // verus!
