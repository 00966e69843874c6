use vstd::prelude::*;

verus! {

/// The number of values between two snapshots of a fresh statistic.
pub const N_PER_SNAPSHOT_INITIAL: usize = 10;

/// The most snapshots that a statistic keeps between two additions.
pub const N_SNAPSHOTS_MAX: usize = 10;

/// A running statistic: the number of values it stands for, and their
/// moments, which this module stores and hands out without reading them.
#[derive(Clone, Copy, Debug)]
pub struct SkipStats<M> {
    pub n: usize,
    pub moments: M,
}

/// A decaying-window statistic as a mathematical value.
pub struct WootzState<M> {
    /// The running statistic.
    pub stats: SkipStats<M>,
    /// The snapshots of the running statistic, oldest first.
    pub snapshots: Seq<SkipStats<M>>,
    /// The number of values between two snapshots.
    pub n_per_snapshot: nat,
    /// The folds since the last truncation.
    pub burnedness: nat,
}

impl<M> WootzState<M> {
    /// The statistic of the two values that a series is seeded with.
    pub open spec fn initial(moments: M) -> Self {
        WootzState {
            stats: SkipStats { n: 2, moments },
            snapshots: Seq::empty(),
            n_per_snapshot: N_PER_SNAPSHOT_INITIAL as nat,
            burnedness: 0,
        }
    }

    /// The snapshots are evenly spaced: the one at place `i` stands for `i + 1`
    /// times the values between two snapshots. The running statistic has gone
    /// past the last one by less than that distance. There is at most one
    /// snapshot over the limit.
    pub open spec fn wf(self) -> bool {
        &&& self.n_per_snapshot >= 1
        &&& self.snapshots.len() <= N_SNAPSHOTS_MAX + 1
        &&& forall|i: int|
            0 <= i < self.snapshots.len() ==> (#[trigger] self.snapshots[i]).n == (i + 1)
                * self.n_per_snapshot
        &&& self.snapshots.len() * self.n_per_snapshot <= self.stats.n
        &&& self.stats.n < (self.snapshots.len() + 1) * self.n_per_snapshot
        &&& self.burnedness <= usize::MAX
    }

    /// Whether the snapshots are within their limit, so that a value can be
    /// added.
    pub open spec fn is_settled(self) -> bool {
        self.snapshots.len() <= N_SNAPSHOTS_MAX
    }

    /// Whether a snapshot is due with the next value.
    pub open spec fn snapshot_due(self) -> bool {
        (self.stats.n + 1) % (self.n_per_snapshot as int) == 0
    }

    /// The statistic after one more value, which brought the moments to
    /// `moments`: a snapshot of the new running statistic is appended where one
    /// is due.
    pub open spec fn after_add(self, moments: M) -> Self {
        let stats = SkipStats { n: (self.stats.n + 1) as usize, moments };
        WootzState {
            stats,
            snapshots: if self.snapshot_due() {
                self.snapshots.push(stats)
            } else {
                self.snapshots
            },
            ..self
        }
    }

    /// The statistic after a fold: of the snapshots, those at the odd places
    /// stay, the distance between snapshots is doubled, and the running
    /// statistic is as before.
    pub open spec fn after_fold(self) -> Self {
        WootzState {
            stats: self.stats,
            snapshots: Seq::new(self.snapshots.len() / 2, |j: int| self.snapshots[2 * j + 1]),
            n_per_snapshot: 2 * self.n_per_snapshot,
            burnedness: if self.burnedness < usize::MAX {
                self.burnedness + 1
            } else {
                self.burnedness
            },
        }
    }

    /// The number of values that a statistic stands for once the oldest
    /// snapshot is taken out of it.
    pub open spec fn n_without_oldest(self, stats: SkipStats<M>) -> usize {
        (stats.n - self.snapshots[0].n) as usize
    }

    /// Whether `after` is this statistic after a truncation: the oldest
    /// snapshot is gone, and it is taken out of the running statistic and out
    /// of every other snapshot, whose counts go down by its count and whose
    /// moments are what `minus` makes of them and the oldest snapshot.
    pub open spec fn is_truncation<F: Fn(SkipStats<M>, SkipStats<M>) -> M>(
        self,
        after: Self,
        minus: F,
    ) -> bool {
        &&& after.n_per_snapshot == self.n_per_snapshot
        &&& after.burnedness == 0
        &&& after.stats.n == self.n_without_oldest(self.stats)
        &&& call_ensures(minus, (self.stats, self.snapshots[0]), after.stats.moments)
        &&& after.snapshots.len() == self.snapshots.len() - 1
        &&& forall|i: int|
            0 <= i < after.snapshots.len() ==> {
                &&& (#[trigger] after.snapshots[i]).n == self.n_without_oldest(
                    self.snapshots[i + 1],
                )
                &&& call_ensures(
                    minus,
                    (self.snapshots[i + 1], self.snapshots[0]),
                    after.snapshots[i].moments,
                )
            }
    }
}

/// Whether `verdicts` holds, for each snapshot but the last, what `is_nearer`
/// says of it and the next: whether the values between the two lie nearer to
/// the running statistic than the values up to the oldest snapshot do.
pub open spec fn are_verdicts<M, P: Fn(SkipStats<M>, SkipStats<M>, SkipStats<M>, SkipStats<M>) -> bool>(
    state: WootzState<M>,
    is_nearer: P,
    verdicts: Seq<bool>,
) -> bool {
    &&& verdicts.len() == state.snapshots.len() - 1
    &&& forall|i: int|
        0 <= i < verdicts.len() ==> call_ensures(
            is_nearer,
            (state.snapshots[0], state.snapshots[i], state.snapshots[i + 1], state.stats),
            #[trigger] verdicts[i],
        )
}

/// Whether a list of verdicts finds the series settled: every stretch
/// between two snapshots lies nearer.
pub open spec fn all_nearer(verdicts: Seq<bool>) -> bool {
    forall|i: int| 0 <= i < verdicts.len() ==> #[trigger] verdicts[i]
}

/// The statistic of a list of values: their number, and their moments as
/// `stat` gives them.
pub open spec fn stat_of<M, X>(stat: spec_fn(Seq<X>) -> M, values: Seq<X>) -> SkipStats<M> {
    SkipStats { n: values.len() as usize, moments: stat(values) }
}

/// Whether a decaying-window statistic is what a fresh computation over the
/// values `retained` gives: the running statistic is the statistic of all of
/// them, and each snapshot is the statistic of as many of the first of them
/// as it counts.
pub open spec fn consistent<M, X>(
    stat: spec_fn(Seq<X>) -> M,
    state: WootzState<M>,
    retained: Seq<X>,
) -> bool {
    &&& retained.len() <= usize::MAX
    &&& state.stats == stat_of(stat, retained)
    &&& forall|i: int|
        0 <= i < state.snapshots.len() ==> (#[trigger] state.snapshots[i]).n <= retained.len()
            && state.snapshots[i] == stat_of(stat, retained.take(state.snapshots[i].n as int))
}

/// Whether `minus` takes values out exactly: of the statistic of a list of
/// values and the statistic of the first of them, it makes the moments of
/// the rest.
pub open spec fn takes_out_exactly<M, X, F: Fn(SkipStats<M>, SkipStats<M>) -> M>(
    stat: spec_fn(Seq<X>) -> M,
    minus: F,
) -> bool {
    forall|values: Seq<X>, n_first: int, rest: M|
        0 <= n_first <= values.len() && #[trigger] call_ensures(
            minus,
            (stat_of(stat, values), stat_of(stat, values.take(n_first))),
            rest,
        ) ==> rest == stat(values.skip(n_first))
}

/// An addition keeps a statistic what a fresh computation over the retained
/// values gives, the new value being retained behind the others.
pub proof fn lemma_add_stays_consistent<M, X>(
    stat: spec_fn(Seq<X>) -> M,
    state: WootzState<M>,
    retained: Seq<X>,
    value: X,
)
    requires
        state.wf(),
        state.is_settled(),
        state.stats.n < usize::MAX,
        consistent(stat, state, retained),
    ensures
        consistent(stat, state.after_add(stat(retained.push(value))), retained.push(value)),
{
    let longer = retained.push(value);
    let next = state.after_add(stat(longer));
    assert forall|i: int| 0 <= i < next.snapshots.len() implies (#[trigger] next.snapshots[i]).n
        <= longer.len() && next.snapshots[i] == stat_of(
        stat,
        longer.take(next.snapshots[i].n as int),
    ) by {
        if i < state.snapshots.len() {
            assert(next.snapshots[i] == state.snapshots[i]);
            assert(longer.take(state.snapshots[i].n as int) =~= retained.take(
                state.snapshots[i].n as int,
            ));
        } else {
            assert(longer.take(longer.len() as int) =~= longer);
        }
    }
}

/// A fold keeps a statistic what a fresh computation over the retained
/// values gives: it changes neither the values retained nor the running
/// statistic, and the snapshots that stay are as they were.
pub proof fn lemma_fold_stays_consistent<M, X>(
    stat: spec_fn(Seq<X>) -> M,
    state: WootzState<M>,
    retained: Seq<X>,
)
    requires
        state.wf(),
        consistent(stat, state, retained),
    ensures
        consistent(stat, state.after_fold(), retained),
{
    let next = state.after_fold();
    assert forall|j: int| 0 <= j < next.snapshots.len() implies (#[trigger] next.snapshots[j]).n
        <= retained.len() && next.snapshots[j] == stat_of(
        stat,
        retained.take(next.snapshots[j].n as int),
    ) by {
        assert(next.snapshots[j] == state.snapshots[2 * j + 1]);
    }
}

/// A truncation keeps a statistic what a fresh computation over the
/// retained values gives, the values of the oldest snapshot being no longer
/// retained. This holds where `minus` takes values out exactly; moments of
/// numbers that are rounded after each step can differ in their last digits.
pub proof fn lemma_truncate_stays_consistent<M, X, F: Fn(SkipStats<M>, SkipStats<M>) -> M>(
    stat: spec_fn(Seq<X>) -> M,
    minus: F,
    before: WootzState<M>,
    after: WootzState<M>,
    retained: Seq<X>,
)
    requires
        before.wf(),
        !before.is_settled(),
        consistent(stat, before, retained),
        takes_out_exactly(stat, minus),
        before.is_truncation(after, minus),
    ensures
        consistent(stat, after, retained.skip(before.snapshots[0].n as int)),
{
    let n_oldest = before.snapshots[0].n as int;
    let rest = retained.skip(n_oldest);
    assert(before.snapshots[0] == stat_of(stat, retained.take(n_oldest)));
    assert(retained.take(retained.len() as int) =~= retained);
    assert(call_ensures(
        minus,
        (stat_of(stat, retained), stat_of(stat, retained.take(n_oldest))),
        after.stats.moments,
    ));
    assert(after.stats.moments == stat(rest));
    assert forall|i: int| 0 <= i < after.snapshots.len() implies (#[trigger] after.snapshots[i]).n
        <= rest.len() && after.snapshots[i] == stat_of(
        stat,
        rest.take(after.snapshots[i].n as int),
    ) by {
        let later = before.snapshots[i + 1];
        let first = retained.take(later.n as int);
        assert(later == stat_of(stat, first));
        assert(before.snapshots[i + 1].n == (i + 1 + 1) * before.n_per_snapshot);
        assert(before.snapshots[0].n == (0 + 1) * before.n_per_snapshot);
        assert((i + 1 + 1) * before.n_per_snapshot >= (0 + 1) * before.n_per_snapshot)
            by (nonlinear_arith)
            requires
                i >= 0,
                before.n_per_snapshot >= 0,
        ;
        assert(first.take(n_oldest) =~= retained.take(n_oldest));
        assert(call_ensures(
            minus,
            (stat_of(stat, first), stat_of(stat, first.take(n_oldest))),
            after.snapshots[i].moments,
        ));
        assert(first.skip(n_oldest) =~= rest.take(after.snapshots[i].n as int));
    }
}

/// A fold leaves the running statistic as it is, and with it every figure
/// that is read from it alone, such as the mean; it keeps the statistic well
/// formed, and halves the number of snapshots.
pub proof fn lemma_fold_keeps_statistic<M>(state: WootzState<M>)
    requires
        state.wf(),
    ensures
        state.after_fold().stats == state.stats,
        state.after_fold().wf(),
        state.after_fold().snapshots.len() == state.snapshots.len() / 2,
        state.snapshots.len() >= 1 ==> state.after_fold().is_settled(),
{
    let next = state.after_fold();
    let p = state.n_per_snapshot as int;
    let len = state.snapshots.len() as int;
    let half = len / 2;
    assert forall|j: int| 0 <= j < next.snapshots.len() implies (#[trigger] next.snapshots[j]).n
        == (j + 1) * next.n_per_snapshot by {
        assert(state.snapshots[2 * j + 1].n == (2 * j + 1 + 1) * p);
        assert((2 * j + 1 + 1) * p == (j + 1) * (2 * p)) by (nonlinear_arith);
    }
    assert(half * (2 * p) <= len * p) by (nonlinear_arith)
        requires
            2 * half <= len,
            p >= 1,
    ;
    assert((len + 1) * p <= (half + 1) * (2 * p)) by (nonlinear_arith)
        requires
            len <= 2 * half + 1,
            p >= 1,
    ;
}

/// An addition keeps a statistic well formed, and puts it over the limit of
/// snapshots by one at most.
pub proof fn lemma_add_keeps_wf<M>(state: WootzState<M>, moments: M)
    requires
        state.wf(),
        state.is_settled(),
        state.stats.n < usize::MAX,
    ensures
        state.after_add(moments).wf(),
        state.snapshot_due() ==> state.stats.n + 1 == (state.snapshots.len() + 1)
            * state.n_per_snapshot,
{
    let p = state.n_per_snapshot as int;
    let len = state.snapshots.len() as int;
    let n = state.stats.n as int;
    assert((len + 1) * p == len * p + p) by (nonlinear_arith);
    assert((len + 2) * p == len * p + 2 * p) by (nonlinear_arith);
    if state.snapshot_due() {
        // n + 1 is a multiple of p, above len * p and at most (len + 1) * p
        let q = (n + 1) / p;
        vstd::arithmetic::div_mod::lemma_fundamental_div_mod(n + 1, p);
        vstd::arithmetic::mul::lemma_mul_is_commutative(p, q);
        assert(n + 1 == q * p);
        vstd::arithmetic::mul::lemma_mul_strict_inequality_converse(len, q, p);
        vstd::arithmetic::mul::lemma_mul_inequality_converse(q, len + 1, p);
    } else {
        if n + 1 == (len + 1) * p {
            vstd::arithmetic::div_mod::lemma_mod_multiples_basic(len + 1, p);
        }
    }
}

/// A decaying-window statistic: a running statistic and snapshots of it,
/// taken at even distances. When the snapshots go over their limit, either the
/// oldest is taken out of the running statistic and of the other snapshots
/// (a truncation), or every other snapshot is dropped and the distance doubled
/// (a fold).
///
/// This type keeps the counts and the order of things. The moments are the
/// caller's: it computes them, and reads them to decide between a truncation
/// and a fold.
#[derive(Clone, Debug)]
pub struct WootzStats<M> {
    stats: SkipStats<M>,
    snapshots: Vec<SkipStats<M>>,
    n_per_snapshot: usize,
    burnedness: usize,
}

impl<M> View for WootzStats<M> {
    type V = WootzState<M>;

    closed spec fn view(&self) -> WootzState<M> {
        WootzState {
            stats: self.stats,
            snapshots: self.snapshots@,
            n_per_snapshot: self.n_per_snapshot as nat,
            burnedness: self.burnedness as nat,
        }
    }
}

impl<M: Copy> WootzStats<M> {
    /// The statistic of the two values that a series is seeded with, whose
    /// moments are `moments`.
    pub fn new(moments: M) -> (wootz: Self)
        ensures
            wootz@ == WootzState::initial(moments),
            wootz@.wf(),
            wootz@.is_settled(),
    {
        WootzStats {
            stats: SkipStats { n: 2, moments },
            snapshots: Vec::new(),
            n_per_snapshot: N_PER_SNAPSHOT_INITIAL,
            burnedness: 0,
        }
    }

    /// The number of values that the running statistic stands for.
    pub fn n(&self) -> (n: usize)
        ensures
            n == self@.stats.n,
    {
        self.stats.n
    }

    /// The running statistic.
    pub fn stats(&self) -> (stats: SkipStats<M>)
        ensures
            stats == self@.stats,
    {
        self.stats
    }

    pub fn n_snapshots(&self) -> (n: usize)
        ensures
            n == self@.snapshots.len(),
    {
        self.snapshots.len()
    }

    /// The snapshot at place `i`, the oldest being at place 0.
    pub fn snapshot(&self, i: usize) -> (snapshot: Option<SkipStats<M>>)
        ensures
            snapshot == if i < self@.snapshots.len() {
                Some(self@.snapshots[i as int])
            } else {
                None
            },
    {
        if i < self.snapshots.len() {
            Some(self.snapshots[i])
        } else {
            None
        }
    }

    pub fn n_per_snapshot(&self) -> (n: usize)
        ensures
            n == self@.n_per_snapshot,
    {
        self.n_per_snapshot
    }

    /// The folds since the last truncation.
    pub fn burnedness(&self) -> (burnedness: usize)
        ensures
            burnedness == self@.burnedness,
    {
        self.burnedness
    }

    /// Whether the snapshots are within their limit.
    pub fn is_settled(&self) -> (settled: bool)
        ensures
            settled == self@.is_settled(),
    {
        self.snapshots.len() <= N_SNAPSHOTS_MAX
    }

    /// Adds one value, which brings the moments to `moments`. Returns whether
    /// the snapshots are now over their limit, so that a truncation or a fold
    /// is due before the next addition.
    pub fn add(&mut self, moments: M) -> (overfull: bool)
        requires
            old(self)@.wf(),
            old(self)@.is_settled(),
            old(self)@.stats.n < usize::MAX,
        ensures
            final(self)@ == old(self)@.after_add(moments),
            final(self)@.wf(),
            overfull == !final(self)@.is_settled(),
    {
        proof {
            lemma_add_keeps_wf(self@, moments);
        }
        let stats = SkipStats { n: self.stats.n + 1, moments };
        self.stats = stats;
        if stats.n % self.n_per_snapshot == 0 {
            self.snapshots.push(stats);
        }
        self.snapshots.len() > N_SNAPSHOTS_MAX
    }

    /// Drops every other snapshot, the oldest first, and doubles the distance
    /// between snapshots. The running statistic stays as it is.
    pub fn fold(&mut self)
        requires
            old(self)@.wf(),
            !old(self)@.is_settled(),
        ensures
            final(self)@ == old(self)@.after_fold(),
            final(self)@.wf(),
            final(self)@.is_settled(),
            final(self)@.stats == old(self)@.stats,
    {
        proof {
            lemma_fold_keeps_statistic(self@);
            let p = self.n_per_snapshot as int;
            let len = self.snapshots@.len() as int;
            assert(2 * p <= len * p) by (nonlinear_arith)
                requires
                    len >= 2,
                    p >= 1,
            ;
        }
        let ghost before = self.snapshots@;
        let mut kept: Vec<SkipStats<M>> = Vec::new();
        let mut i: usize = 1;
        while i < self.snapshots.len()
            invariant
                self.snapshots@ == before,
                before.len() <= N_SNAPSHOTS_MAX + 1,
                i == 2 * kept@.len() + 1,
                kept@.len() <= before.len() / 2,
                forall|j: int| 0 <= j < kept@.len() ==> (#[trigger] kept@[j]) == before[2 * j + 1],
            decreases before.len() + 2 - i,
        {
            kept.push(self.snapshots[i]);
            i += 2;
        }
        proof {
            assert(kept@ =~= Seq::new(before.len() / 2, |j: int| before[2 * j + 1]));
        }
        self.snapshots = kept;
        self.n_per_snapshot = 2 * self.n_per_snapshot;
        if self.burnedness < usize::MAX {
            self.burnedness = self.burnedness + 1;
        }
    }

    /// Takes the oldest snapshot out of the running statistic and out of the
    /// other snapshots, and drops it. `minus` computes the moments of a
    /// statistic without the values of an earlier snapshot of it.
    pub fn truncate<F: Fn(SkipStats<M>, SkipStats<M>) -> M>(&mut self, minus: &F)
        requires
            old(self)@.wf(),
            !old(self)@.is_settled(),
            forall|later: SkipStats<M>, oldest: SkipStats<M>|
                call_requires(*minus, (later, oldest)),
        ensures
            final(self)@.wf(),
            final(self)@.is_settled(),
            old(self)@.is_truncation(final(self)@, *minus),
    {
        let ghost before = self@;
        let ghost p = self.n_per_snapshot as int;
        let oldest = self.snapshots[0];
        proof {
            assert(before.snapshots[0].n == (0 + 1) * p);
            assert((0 + 1) * p == p) by (nonlinear_arith);
        }
        let mut kept: Vec<SkipStats<M>> = Vec::new();
        let mut i: usize = 1;
        while i < self.snapshots.len()
            invariant
                self@ == before,
                before.wf(),
                p == before.n_per_snapshot,
                oldest == before.snapshots[0],
                oldest.n == p,
                1 <= i <= before.snapshots.len(),
                kept@.len() == i - 1,
                forall|later: SkipStats<M>, oldest: SkipStats<M>|
                    call_requires(*minus, (later, oldest)),
                forall|j: int|
                    0 <= j < kept@.len() ==> {
                        &&& (#[trigger] kept@[j]).n == (j + 1) * p
                        &&& kept@[j].n == before.n_without_oldest(before.snapshots[j + 1])
                        &&& call_ensures(
                            *minus,
                            (before.snapshots[j + 1], before.snapshots[0]),
                            kept@[j].moments,
                        )
                    },
            decreases before.snapshots.len() - i,
        {
            let later = self.snapshots[i];
            proof {
                assert(before.snapshots[i as int].n == (i + 1) * p);
                assert((i + 1) * p == i * p + p) by (nonlinear_arith);
                assert(i * p >= 0) by (nonlinear_arith)
                    requires
                        i >= 0,
                        p >= 0,
                ;
            }
            let moments = minus(later, oldest);
            kept.push(SkipStats { n: later.n - oldest.n, moments });
            i += 1;
        }
        let running = self.stats;
        proof {
            let len = before.snapshots.len() as int;
            assert(len * p >= p) by (nonlinear_arith)
                requires
                    len >= 1,
                    p >= 0,
            ;
            assert((len + 1) * p == len * p + p) by (nonlinear_arith);
            assert((len - 1) * p == len * p - p) by (nonlinear_arith);
        }
        let moments = minus(running, oldest);
        self.stats = SkipStats { n: running.n - oldest.n, moments };
        self.snapshots = kept;
        self.burnedness = 0;
    }

    /// Adds one value, which brings the moments to `moments`, and keeps the
    /// snapshots within their limit: where they go over it, the oldest
    /// snapshot is taken out if every stretch between two snapshots lies
    /// nearer to the running statistic than the stretch up to the oldest
    /// snapshot, as `is_nearer` judges it; otherwise the snapshots are folded.
    pub fn add_and_settle<
        P: Fn(SkipStats<M>, SkipStats<M>, SkipStats<M>, SkipStats<M>) -> bool,
        F: Fn(SkipStats<M>, SkipStats<M>) -> M,
    >(&mut self, moments: M, is_nearer: &P, minus: &F)
        requires
            old(self)@.wf(),
            old(self)@.is_settled(),
            old(self)@.stats.n < usize::MAX,
            forall|first: SkipStats<M>, earlier: SkipStats<M>, later: SkipStats<M>, running: SkipStats<M>|
                call_requires(*is_nearer, (first, earlier, later, running)),
            forall|later: SkipStats<M>, oldest: SkipStats<M>|
                call_requires(*minus, (later, oldest)),
        ensures
            final(self)@.wf(),
            final(self)@.is_settled(),
            old(self)@.after_add(moments).is_settled() ==> final(self)@ == old(self)@.after_add(
                moments,
            ),
            !old(self)@.after_add(moments).is_settled() ==> exists|verdicts: Seq<bool>|
                {
                    &&& #[trigger] are_verdicts(old(self)@.after_add(moments), *is_nearer, verdicts)
                    &&& all_nearer(verdicts) ==> old(self)@.after_add(moments).is_truncation(
                        final(self)@,
                        *minus,
                    )
                    &&& !all_nearer(verdicts) ==> final(self)@ == old(self)@.after_add(
                        moments,
                    ).after_fold()
                },
    {
        let overfull = self.add(moments);
        if !overfull {
            return ;
        }
        let ghost mid = self@;
        let first = self.snapshots[0];
        let running = self.stats;
        let mut settled = true;
        let ghost mut verdicts: Seq<bool> = Seq::empty();
        let mut i: usize = 0;
        while i + 1 < self.snapshots.len()
            invariant
                self@ == mid,
                mid.snapshots.len() == N_SNAPSHOTS_MAX + 1,
                first == mid.snapshots[0],
                running == mid.stats,
                i + 1 <= mid.snapshots.len(),
                verdicts.len() == i,
                settled == all_nearer(verdicts),
                forall|first: SkipStats<M>, earlier: SkipStats<M>, later: SkipStats<M>, running: SkipStats<M>|
                    call_requires(*is_nearer, (first, earlier, later, running)),
                forall|k: int|
                    0 <= k < verdicts.len() ==> call_ensures(
                        *is_nearer,
                        (mid.snapshots[0], mid.snapshots[k], mid.snapshots[k + 1], mid.stats),
                        #[trigger] verdicts[k],
                    ),
            decreases mid.snapshots.len() - i,
        {
            let nearer = is_nearer(first, self.snapshots[i], self.snapshots[i + 1], running);
            proof {
                let earlier = verdicts;
                verdicts = verdicts.push(nearer);
                assert forall|k: int| 0 <= k < verdicts.len() implies call_ensures(
                    *is_nearer,
                    (mid.snapshots[0], mid.snapshots[k], mid.snapshots[k + 1], mid.stats),
                    #[trigger] verdicts[k],
                ) by {
                    if k < i {
                        assert(verdicts[k] == earlier[k]);
                    }
                }
                if all_nearer(earlier) && nearer {
                    assert forall|k: int| 0 <= k < verdicts.len() implies #[trigger] verdicts[k] by {
                        if k < i {
                            assert(earlier[k]);
                        }
                    }
                } else if !nearer {
                    assert(!verdicts[i as int]);
                } else {
                    let k = choose|k: int| 0 <= k < earlier.len() && !#[trigger] earlier[k];
                    assert(!verdicts[k]);
                }
            }
            if !nearer {
                settled = false;
            }
            i += 1;
        }
        proof {
            assert(are_verdicts(mid, *is_nearer, verdicts));
        }
        if settled {
            self.truncate(minus);
        } else {
            self.fold();
        }
    }

    /// Starts the series again from two values whose moments are `moments`:
    /// the snapshots go, and the distance between snapshots is that of a fresh
    /// statistic. The count of folds stays.
    pub fn squash(&mut self, moments: M)
        ensures
            final(self)@ == (WootzState {
                burnedness: old(self)@.burnedness,
                ..WootzState::initial(moments)
            }),
            final(self)@.is_settled(),
            old(self)@.wf() ==> final(self)@.wf(),
    {
        self.stats = SkipStats { n: 2, moments };
        self.snapshots = Vec::new();
        self.n_per_snapshot = N_PER_SNAPSHOT_INITIAL;
    }
}

} // verus!
