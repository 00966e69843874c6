use crate::error::Error;
use crate::error::ErrorKind;
use crate::select::marked;
use crate::select::marked_places;
use vstd::prelude::*;

verus! {

pub const MSG_NO_ESTIMATES_DUE: &'static str = "No parameter estimates are due.";

pub const MSG_NO_CHECK_DUE: &'static str = "No convergence check is due.";

/// The fewest workers that a pool is given, so that a comparison between
/// chains means something.
pub const N_WORKERS_MIN: usize = 3;

/// The number of workers for a machine that can run `available` threads at once.
pub fn n_workers(available: usize) -> (n: usize)
    ensures
        n >= N_WORKERS_MIN,
        n >= available,
        n == available || n == N_WORKERS_MIN,
{
    if available < N_WORKERS_MIN {
        N_WORKERS_MIN
    } else {
        available
    }
}

/// What a training run waits for.
#[derive(Clone, Copy, PartialEq, Eq, Debug, Structural)]
pub enum TrainPhase {
    /// The first of the two sets of estimates that seed a round's statistics.
    SeedFirst,
    /// The second of them.
    SeedSecond,
    /// A further set of estimates of the round.
    Iterating,
    /// The comparison of the chains, at the end of a round.
    Checking,
    /// Nothing: the run is over.
    Done,
}

/// What to do with a set of estimates, one of each chain, that has come in.
#[derive(Clone, Copy, PartialEq, Eq, Debug, Structural)]
pub enum EstimateUse {
    /// Too few chains gave usable estimates: drop the set and ask again.
    Discard,
    /// Keep the set as the first seed of each chain's statistic.
    SeedFirst,
    /// Seed each chain's statistic from the set kept and this one.
    SeedSecond,
    /// Add the set to the statistics.
    Feed,
    /// Add the set to the statistics, then compare the chains.
    FeedAndCheck,
}

/// How a round ends.
#[derive(Clone, Copy, PartialEq, Eq, Debug, Structural)]
pub enum Verdict {
    /// The chains agree and the estimate is precise: take the pooled estimate
    /// as the result.
    Converged,
    /// The allowed rounds are used up. The result is the pooled estimate where
    /// `adopt` holds, and the parameters of the round where it does not.
    OutOfRounds { adopt: bool },
    /// Go into another round: hand the parameters to every chain, the pooled
    /// estimate where `adopt` holds and those of this round where it does
    /// not.
    NextRound { adopt: bool },
}

/// A training run as a mathematical value.
pub struct TrainState {
    pub phase: TrainPhase,
    /// The rounds completed.
    pub i_round: nat,
    /// The sets of estimates added in this round after the two seeds.
    pub i_iteration: nat,
    pub n_iterations_per_round: nat,
    pub n_rounds: nat,
}

impl TrainState {
    pub open spec fn initial(n_iterations_per_round: nat, n_rounds: nat) -> Self {
        TrainState {
            phase: TrainPhase::SeedFirst,
            i_round: 0,
            i_iteration: 0,
            n_iterations_per_round,
            n_rounds,
        }
    }

    pub open spec fn wf(self) -> bool {
        &&& self.i_round <= self.n_rounds
        &&& self.phase == TrainPhase::SeedFirst || self.phase == TrainPhase::SeedSecond
            ==> self.i_iteration == 0
        &&& self.phase == TrainPhase::Iterating ==> self.i_iteration
            < self.n_iterations_per_round || self.i_iteration == 0
        &&& self.phase == TrainPhase::Checking ==> self.i_iteration >= 1
    }

    /// Whether a set of estimates is waited for.
    pub open spec fn wants_estimates(self) -> bool {
        self.phase == TrainPhase::SeedFirst || self.phase == TrainPhase::SeedSecond || self.phase
            == TrainPhase::Iterating
    }

    /// Whether the comparison of the chains is waited for.
    pub open spec fn wants_check(self) -> bool {
        self.phase == TrainPhase::Checking
    }

    /// What a set of estimates is used for. The comparison is due once as many
    /// sets as a round has iterations were added, and after the first where a
    /// round has none.
    pub open spec fn estimate_use(self, usable: bool) -> EstimateUse {
        if !usable {
            EstimateUse::Discard
        } else if self.phase == TrainPhase::SeedFirst {
            EstimateUse::SeedFirst
        } else if self.phase == TrainPhase::SeedSecond {
            EstimateUse::SeedSecond
        } else if self.i_iteration + 1 >= self.n_iterations_per_round {
            EstimateUse::FeedAndCheck
        } else {
            EstimateUse::Feed
        }
    }

    pub open spec fn after_estimates(self, usable: bool) -> Self {
        match self.estimate_use(usable) {
            EstimateUse::Discard => self,
            EstimateUse::SeedFirst => TrainState { phase: TrainPhase::SeedSecond, ..self },
            EstimateUse::SeedSecond => TrainState { phase: TrainPhase::Iterating, ..self },
            EstimateUse::Feed => TrainState { i_iteration: self.i_iteration + 1, ..self },
            EstimateUse::FeedAndCheck => TrainState {
                phase: TrainPhase::Checking,
                i_iteration: self.i_iteration + 1,
                ..self
            },
        }
    }

    /// How the round ends. The pooled estimate is adopted exactly where the
    /// chains agree; the run is over where it is precise too, or where the
    /// allowed rounds are used up.
    pub open spec fn verdict(self, chains_agree: bool, precise: bool) -> Verdict {
        if chains_agree && precise {
            Verdict::Converged
        } else if self.i_round >= self.n_rounds {
            Verdict::OutOfRounds { adopt: chains_agree }
        } else {
            Verdict::NextRound { adopt: chains_agree }
        }
    }

    pub open spec fn after_check(self, chains_agree: bool, precise: bool) -> Self {
        match self.verdict(chains_agree, precise) {
            Verdict::NextRound { adopt } => TrainState {
                phase: TrainPhase::SeedFirst,
                i_round: self.i_round + 1,
                i_iteration: 0,
                ..self
            },
            _ => TrainState { phase: TrainPhase::Done, ..self },
        }
    }

    /// The sets of estimates that one round takes at most.
    pub open spec fn round_length(self) -> nat {
        self.n_iterations_per_round + 4
    }

    /// A bound on the usable sets of estimates and comparisons that the run
    /// can still take.
    pub open spec fn steps_left(self) -> nat {
        let rounds_after = (self.n_rounds - self.i_round) as nat * self.round_length();
        let in_round: nat = match self.phase {
            TrainPhase::SeedFirst => self.round_length(),
            TrainPhase::SeedSecond => (self.round_length() - 1) as nat,
            TrainPhase::Iterating => (self.round_length() - 2 - self.i_iteration) as nat,
            TrainPhase::Checking => 1,
            TrainPhase::Done => 0,
        };
        rounds_after + in_round
    }
}

/// A usable set of estimates brings a training run nearer to its end, and
/// keeps it well formed.
pub proof fn lemma_estimates_progress(state: TrainState)
    requires
        state.wf(),
        state.wants_estimates(),
    ensures
        state.after_estimates(true).wf(),
        state.after_estimates(true).steps_left() < state.steps_left(),
        state.after_estimates(false) == state,
{
}

/// A comparison of the chains brings a training run nearer to its end, and
/// keeps it well formed: no run takes more rounds than it was allowed.
pub proof fn lemma_check_progress(state: TrainState, chains_agree: bool, precise: bool)
    requires
        state.wf(),
        state.wants_check(),
    ensures
        state.after_check(chains_agree, precise).wf(),
        state.after_check(chains_agree, precise).steps_left() < state.steps_left(),
        state.after_check(chains_agree, precise).i_round <= state.n_rounds,
{
    let next = state.after_check(chains_agree, precise);
    if state.verdict(chains_agree, precise) is NextRound {
        let length = state.round_length() as int;
        let left = state.n_rounds - state.i_round;
        assert((left - 1) * length + length == left * length) by (nonlinear_arith);
    }
}

/// What happens to a training run.
pub enum TrainEvent {
    /// A set of estimates came in, `usable` where enough chains gave usable
    /// ones.
    Estimates { usable: bool },
    /// The chains were compared.
    Check { chains_agree: bool, precise: bool },
}

impl TrainState {
    /// Whether an event is waited for.
    pub open spec fn accepts(self, event: TrainEvent) -> bool {
        match event {
            TrainEvent::Estimates { usable } => self.wants_estimates(),
            TrainEvent::Check { chains_agree, precise } => self.wants_check(),
        }
    }

    /// The run after an event; an event that is not waited for leaves it as
    /// it is.
    pub open spec fn apply(self, event: TrainEvent) -> Self {
        if !self.accepts(event) {
            self
        } else {
            match event {
                TrainEvent::Estimates { usable } => self.after_estimates(usable),
                TrainEvent::Check { chains_agree, precise } => self.after_check(
                    chains_agree,
                    precise,
                ),
            }
        }
    }

    /// The run after a list of events.
    pub open spec fn run(self, events: Seq<TrainEvent>) -> Self
        decreases events.len(),
    {
        if events.len() == 0 {
            self
        } else {
            self.run(events.drop_last()).apply(events.last())
        }
    }

    /// Whether each event of a list was waited for when it came, and every
    /// set of estimates was usable.
    pub open spec fn advances(self, events: Seq<TrainEvent>) -> bool
        decreases events.len(),
    {
        events.len() == 0 || (self.advances(events.drop_last()) && self.run(
            events.drop_last(),
        ).accepts(events.last()) && !(events.last() matches TrainEvent::Estimates {
            usable: false,
        }))
    }
}

/// Training ends: a run takes no more usable sets of estimates and
/// comparisons than fit into the rounds it was allowed, however the
/// comparisons turn out.
pub proof fn lemma_training_ends(state: TrainState, events: Seq<TrainEvent>)
    requires
        state.wf(),
        state.advances(events),
    ensures
        state.run(events).wf(),
        events.len() + state.run(events).steps_left() <= state.steps_left(),
        events.len() <= (state.n_rounds - state.i_round + 1) * state.round_length(),
    decreases events.len(),
{
    if events.len() > 0 {
        let earlier = events.drop_last();
        lemma_training_ends(state, earlier);
        let before = state.run(earlier);
        match events.last() {
            TrainEvent::Estimates { usable } => {
                lemma_estimates_progress(before);
            },
            TrainEvent::Check { chains_agree, precise } => {
                lemma_check_progress(before, chains_agree, precise);
            },
        }
    }
    let left = (state.n_rounds - state.i_round) as int;
    let length = state.round_length() as int;
    assert((left + 1) * length == left * length + length) by (nonlinear_arith);
}

/// Steers a training run: takes each set of estimates as a seed of the
/// round's statistics or as a further sample, says when the chains are to be
/// compared, and decides from the comparison whether the run is over or goes
/// into another round.
pub struct TrainControl {
    phase: TrainPhase,
    i_round: usize,
    i_iteration: usize,
    n_iterations_per_round: usize,
    n_rounds: usize,
}

impl View for TrainControl {
    type V = TrainState;

    closed spec fn view(&self) -> TrainState {
        TrainState {
            phase: self.phase,
            i_round: self.i_round as nat,
            i_iteration: self.i_iteration as nat,
            n_iterations_per_round: self.n_iterations_per_round as nat,
            n_rounds: self.n_rounds as nat,
        }
    }
}

impl TrainControl {
    /// A run that compares the chains after `n_iterations_per_round` sets of
    /// estimates, and ends after `n_rounds` further rounds at the latest.
    pub fn new(n_iterations_per_round: usize, n_rounds: usize) -> (control: Self)
        ensures
            control@ == TrainState::initial(n_iterations_per_round as nat, n_rounds as nat),
            control@.wf(),
    {
        TrainControl {
            phase: TrainPhase::SeedFirst,
            i_round: 0,
            i_iteration: 0,
            n_iterations_per_round,
            n_rounds,
        }
    }

    pub fn phase(&self) -> (phase: TrainPhase)
        ensures
            phase == self@.phase,
    {
        self.phase
    }

    /// The rounds completed.
    pub fn i_round(&self) -> (i_round: usize)
        ensures
            i_round == self@.i_round,
    {
        self.i_round
    }

    /// The sets of estimates added in this round after the two seeds.
    pub fn i_iteration(&self) -> (i_iteration: usize)
        ensures
            i_iteration == self@.i_iteration,
    {
        self.i_iteration
    }

    pub fn is_done(&self) -> (done: bool)
        ensures
            done == (self@.phase == TrainPhase::Done),
    {
        match self.phase {
            TrainPhase::Done => true,
            _ => false,
        }
    }

    /// Takes note that a set of estimates has come in, `usable` where enough
    /// chains gave usable ones, and says what it is for. Refused while the
    /// comparison of the chains is waited for, and when the run is over.
    pub fn estimates_received(&mut self, usable: bool) -> (outcome: Result<EstimateUse, Error>)
        requires
            old(self)@.wf(),
        ensures
            final(self)@.wf(),
            old(self)@.wants_estimates() ==> outcome == Ok::<EstimateUse, Error>(
                old(self)@.estimate_use(usable),
            ) && final(self)@ == old(self)@.after_estimates(usable),
            !old(self)@.wants_estimates() ==> outcome is Err && final(self)@ == old(self)@
                && outcome->Err_0.kind == ErrorKind::Mocasa && outcome->Err_0.message@
                == MSG_NO_ESTIMATES_DUE@,
    {
        match self.phase {
            TrainPhase::Checking => Err(Error::mocasa(MSG_NO_ESTIMATES_DUE)),
            TrainPhase::Done => Err(Error::mocasa(MSG_NO_ESTIMATES_DUE)),
            TrainPhase::SeedFirst => {
                if usable {
                    self.phase = TrainPhase::SeedSecond;
                    Ok(EstimateUse::SeedFirst)
                } else {
                    Ok(EstimateUse::Discard)
                }
            },
            TrainPhase::SeedSecond => {
                if usable {
                    self.phase = TrainPhase::Iterating;
                    Ok(EstimateUse::SeedSecond)
                } else {
                    Ok(EstimateUse::Discard)
                }
            },
            TrainPhase::Iterating => {
                if !usable {
                    Ok(EstimateUse::Discard)
                } else {
                    self.i_iteration = self.i_iteration + 1;
                    if self.i_iteration >= self.n_iterations_per_round {
                        self.phase = TrainPhase::Checking;
                        Ok(EstimateUse::FeedAndCheck)
                    } else {
                        Ok(EstimateUse::Feed)
                    }
                }
            },
        }
    }

    /// Takes the outcome of the comparison of the chains: `chains_agree` where
    /// they differ from each other less than each varies in itself, `precise`
    /// where the relative error is under the precision asked for. Says how the
    /// round ends. Refused where no comparison is due.
    pub fn check(&mut self, chains_agree: bool, precise: bool) -> (outcome: Result<Verdict, Error>)
        requires
            old(self)@.wf(),
        ensures
            final(self)@.wf(),
            old(self)@.wants_check() ==> outcome == Ok::<Verdict, Error>(
                old(self)@.verdict(chains_agree, precise),
            ) && final(self)@ == old(self)@.after_check(chains_agree, precise),
            !old(self)@.wants_check() ==> outcome is Err && final(self)@ == old(self)@
                && outcome->Err_0.kind == ErrorKind::Mocasa && outcome->Err_0.message@
                == MSG_NO_CHECK_DUE@,
    {
        match self.phase {
            TrainPhase::Checking => {
                if chains_agree && precise {
                    self.phase = TrainPhase::Done;
                    Ok(Verdict::Converged)
                } else if self.i_round >= self.n_rounds {
                    self.phase = TrainPhase::Done;
                    Ok(Verdict::OutOfRounds { adopt: chains_agree })
                } else {
                    self.phase = TrainPhase::SeedFirst;
                    self.i_round = self.i_round + 1;
                    self.i_iteration = 0;
                    Ok(Verdict::NextRound { adopt: chains_agree })
                }
            },
            _ => Err(Error::mocasa(MSG_NO_CHECK_DUE)),
        }
    }
}

/// The chains whose estimates take part in a round, by their numbers in
/// rising order: those marked valid, where they are at least one and at least
/// `n_chains_min`; otherwise none, and the round is to be sampled again.
pub open spec fn usable_chains_spec(valid: Seq<bool>, n_chains_min: nat) -> Option<Seq<usize>> {
    let chains = marked(valid);
    if chains.len() >= 1 && chains.len() >= n_chains_min {
        Some(chains)
    } else {
        None
    }
}

/// Picks the chains whose estimates take part in a round.
pub fn usable_chains(valid: &Vec<bool>, n_chains_min: usize) -> (chains: Option<Vec<usize>>)
    ensures
        chains is Some == usable_chains_spec(valid@, n_chains_min as nat) is Some,
        chains is Some ==> chains->0@ == usable_chains_spec(valid@, n_chains_min as nat)->0,
{
    let chains = marked_places(valid);
    if chains.len() >= 1 && chains.len() >= n_chains_min {
        Some(chains)
    } else {
        None
    }
}

} // verus!
