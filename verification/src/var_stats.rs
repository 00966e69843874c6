use crate::data::Meta;
use crate::matrix::Matrix;
use crate::sample::Vars;
use vstd::prelude::*;

verus! {

/// Whether `total` is what comes of adding the values of a list, one after
/// the other, to `zero`, where `plus` does the adding.
pub open spec fn totals<T, P: Fn(T, T) -> T>(plus: P, zero: T, values: Seq<T>, total: T) -> bool
    decreases values.len(),
{
    if values.len() == 0 {
        total == zero
    } else {
        exists|before: T|
            totals(plus, zero, values.drop_last(), before) && #[trigger] call_ensures(
                plus,
                (before, values.last()),
                total,
            )
    }
}

/// Whether `sum` is what comes of adding to `before` the square of `value`.
pub open spec fn adds_square<T, P: Fn(T, T) -> T, S: Fn(T) -> T>(
    plus: P,
    square: S,
    before: T,
    value: T,
    sum: T,
) -> bool {
    exists|squared: T|
        call_ensures(square, (value,), squared) && #[trigger] call_ensures(
            plus,
            (before, squared),
            sum,
        )
}

/// The running sums of a chain: for each data point and each endophenotype
/// or trait the sum of the values drawn and the sum of their squares, and the
/// number of draws.
#[derive(Clone, Debug)]
pub struct VarStats<T> {
    pub meta: Meta,
    /// The number of sweeps added.
    pub n: usize,
    pub e_sums: Matrix<T>,
    pub e2_sums: Matrix<T>,
    pub t_sums: Matrix<T>,
    pub t2_sums: Matrix<T>,
}

impl<T> VarStats<T> {
    /// There is a row for each data point, a column for each endophenotype
    /// in the sums of the endophenotypes, and a column for each trait in the
    /// sums of the traits.
    pub open spec fn wf(&self) -> bool {
        &&& self.e_sums.wf()
        &&& self.e2_sums.wf()
        &&& self.t_sums.wf()
        &&& self.t2_sums.wf()
        &&& self.e_sums.rows() == self.meta.ids().len()
        &&& self.e2_sums.rows() == self.meta.ids().len()
        &&& self.t_sums.rows() == self.meta.ids().len()
        &&& self.t2_sums.rows() == self.meta.ids().len()
        &&& self.e2_sums.cols() == self.e_sums.cols()
        &&& self.t_sums.cols() == self.meta.names().len()
        &&& self.t2_sums.cols() == self.meta.names().len()
    }

    pub open spec fn n_data_points(&self) -> nat {
        self.e_sums.rows()
    }

    pub open spec fn n_endos(&self) -> nat {
        self.e_sums.cols()
    }

    pub open spec fn n_traits(&self) -> nat {
        self.t_sums.cols()
    }

    /// Whether the sums are for variables of the shape of `vars`.
    pub open spec fn fits(&self, vars: &Vars<T>) -> bool {
        &&& self.n_data_points() == vars.n_data_points()
        &&& self.n_endos() == vars.n_endos()
        &&& self.n_traits() == vars.n_traits()
    }

    /// Whether two sets of sums have the same shape.
    pub open spec fn same_shape(&self, other: &Self) -> bool {
        &&& self.n_data_points() == other.n_data_points()
        &&& self.n_endos() == other.n_endos()
        &&& self.n_traits() == other.n_traits()
    }
}

/// The numbers of draws of the first `k` sets of sums of a list, added up.
pub open spec fn draws<T>(stats_list: Seq<VarStats<T>>, k: int) -> int
    decreases k,
{
    if k <= 0 {
        0
    } else {
        draws(stats_list, k - 1) + stats_list[k - 1].n
    }
}

/// The numbers of draws of a list and of another behind it add up: pooling
/// sets of sums pools their draws.
pub proof fn lemma_draws_add<T>(first: Seq<VarStats<T>>, second: Seq<VarStats<T>>, k: int)
    requires
        0 <= k <= second.len(),
    ensures
        draws(first + second, first.len() + k) == draws(first, first.len() as int) + draws(
            second,
            k,
        ),
    decreases k,
{
    if k == 0 {
        lemma_draws_prefix(first, second, first.len() as int);
    } else {
        lemma_draws_add(first, second, k - 1);
        assert((first + second)[first.len() + k - 1] == second[k - 1]);
    }
}

/// The draws of the first sets of a list are not touched by what is put
/// behind the list.
pub proof fn lemma_draws_prefix<T>(first: Seq<VarStats<T>>, second: Seq<VarStats<T>>, k: int)
    requires
        0 <= k <= first.len(),
    ensures
        draws(first + second, k) == draws(first, k),
    decreases k,
{
    if k > 0 {
        lemma_draws_prefix(first, second, k - 1);
        assert((first + second)[k - 1] == first[k - 1]);
    }
}

impl<T: Copy> VarStats<T> {
    /// The sums before the first draw: every one is `zero`.
    pub fn new(meta: Meta, n_endos: usize, zero: T) -> (stats: Self)
        requires
            meta.ids().len() * n_endos <= usize::MAX,
            meta.ids().len() * meta.names().len() <= usize::MAX,
        ensures
            stats.wf(),
            stats.meta == meta,
            stats.n == 0,
            stats.n_endos() == n_endos,
            forall|j: int, k: int|
                0 <= j < stats.n_data_points() && 0 <= k < n_endos ==> (
                #[trigger] stats.e_sums@[j][k]) == zero,
            forall|j: int, k: int|
                0 <= j < stats.n_data_points() && 0 <= k < n_endos ==> (
                #[trigger] stats.e2_sums@[j][k]) == zero,
            forall|j: int, i: int|
                0 <= j < stats.n_data_points() && 0 <= i < stats.n_traits() ==> (
                #[trigger] stats.t_sums@[j][i]) == zero,
            forall|j: int, i: int|
                0 <= j < stats.n_data_points() && 0 <= i < stats.n_traits() ==> (
                #[trigger] stats.t2_sums@[j][i]) == zero,
    {
        let n_data_points = meta.n_data_points();
        let n_traits = meta.n_traits();
        let e_sums = Matrix::filled(n_data_points, n_endos, zero);
        let e2_sums = Matrix::filled(n_data_points, n_endos, zero);
        let t_sums = Matrix::filled(n_data_points, n_traits, zero);
        let t2_sums = Matrix::filled(n_data_points, n_traits, zero);
        VarStats { meta, n: 0, e_sums, e2_sums, t_sums, t2_sums }
    }

    /// Adds the values of the variables after one sweep: each value to its
    /// sum, and its square to its sum of squares, where `plus` adds and
    /// `square` squares.
    pub fn add<P: Fn(T, T) -> T, S: Fn(T) -> T>(&mut self, vars: &Vars<T>, plus: &P, square: &S)
        requires
            old(self).wf(),
            vars.wf(),
            old(self).fits(vars),
            old(self).n < usize::MAX,
            forall|a: T, b: T| call_requires(*plus, (a, b)),
            forall|a: T| call_requires(*square, (a,)),
        ensures
            final(self).wf(),
            final(self).meta == old(self).meta,
            final(self).same_shape(old(self)),
            final(self).n == old(self).n + 1,
            forall|j: int, k: int|
                0 <= j < vars.n_data_points() && 0 <= k < vars.n_endos() ==> call_ensures(
                    *plus,
                    (old(self).e_sums@[j][k], vars.es@[j][k]),
                    #[trigger] final(self).e_sums@[j][k],
                ),
            forall|j: int, k: int|
                0 <= j < vars.n_data_points() && 0 <= k < vars.n_endos() ==> adds_square(
                    *plus,
                    *square,
                    old(self).e2_sums@[j][k],
                    vars.es@[j][k],
                    #[trigger] final(self).e2_sums@[j][k],
                ),
            forall|j: int, i: int|
                0 <= j < vars.n_data_points() && 0 <= i < vars.n_traits() ==> call_ensures(
                    *plus,
                    (old(self).t_sums@[j][i], vars.ts@[j][i]),
                    #[trigger] final(self).t_sums@[j][i],
                ),
            forall|j: int, i: int|
                0 <= j < vars.n_data_points() && 0 <= i < vars.n_traits() ==> adds_square(
                    *plus,
                    *square,
                    old(self).t2_sums@[j][i],
                    vars.ts@[j][i],
                    #[trigger] final(self).t2_sums@[j][i],
                ),
    {
        self.n = self.n + 1;
        let plus_square = |sum: T, value: T| -> (result: T)
            ensures
                adds_square(*plus, *square, sum, value, result),
            {
                let squared = square(value);
                plus(sum, squared)
            };
        self.e_sums.zip_apply(&vars.es, plus);
        self.e2_sums.zip_apply(&vars.es, &plus_square);
        self.t_sums.zip_apply(&vars.ts, plus);
        self.t2_sums.zip_apply(&vars.ts, &plus_square);
    }

    /// Pools the sums of several chains: each sum is what comes of adding
    /// the chains' sums, in the order of the list, to `zero`, and the number
    /// of draws is the sum of the chains' numbers.
    pub fn sum<P: Fn(T, T) -> T>(stats_list: &Vec<VarStats<T>>, zero: T, plus: &P) -> (pooled: Self)
        requires
            stats_list@.len() >= 1,
            forall|c: int| 0 <= c < stats_list@.len() ==> (#[trigger] stats_list@[c]).wf(),
            forall|c: int|
                0 <= c < stats_list@.len() ==> (#[trigger] stats_list@[c]).same_shape(
                    &stats_list@[0],
                ),
            draws(stats_list@, stats_list@.len() as int) <= usize::MAX,
            forall|a: T, b: T| call_requires(*plus, (a, b)),
        ensures
            pooled.wf(),
            pooled.meta == stats_list@[0].meta,
            pooled.same_shape(&stats_list@[0]),
            pooled.n == draws(stats_list@, stats_list@.len() as int),
            forall|j: int, k: int|
                0 <= j < pooled.n_data_points() && 0 <= k < pooled.n_endos() ==> totals(
                    *plus,
                    zero,
                    Seq::new(stats_list@.len(), |c: int| stats_list@[c].e_sums@[j][k]),
                    #[trigger] pooled.e_sums@[j][k],
                ),
            forall|j: int, k: int|
                0 <= j < pooled.n_data_points() && 0 <= k < pooled.n_endos() ==> totals(
                    *plus,
                    zero,
                    Seq::new(stats_list@.len(), |c: int| stats_list@[c].e2_sums@[j][k]),
                    #[trigger] pooled.e2_sums@[j][k],
                ),
            forall|j: int, i: int|
                0 <= j < pooled.n_data_points() && 0 <= i < pooled.n_traits() ==> totals(
                    *plus,
                    zero,
                    Seq::new(stats_list@.len(), |c: int| stats_list@[c].t_sums@[j][i]),
                    #[trigger] pooled.t_sums@[j][i],
                ),
            forall|j: int, i: int|
                0 <= j < pooled.n_data_points() && 0 <= i < pooled.n_traits() ==> totals(
                    *plus,
                    zero,
                    Seq::new(stats_list@.len(), |c: int| stats_list@[c].t2_sums@[j][i]),
                    #[trigger] pooled.t2_sums@[j][i],
                ),
    {
        let first = &stats_list[0];
        proof {
            first.e_sums.lemma_view();
            first.t_sums.lemma_view();
        }
        let mut pooled = VarStats::new(first.meta.share(), first.e_sums.n_cols(), zero);
        let mut c: usize = 0;
        while c < stats_list.len()
            invariant
                c <= stats_list@.len(),
                stats_list@.len() >= 1,
                forall|c: int| 0 <= c < stats_list@.len() ==> (#[trigger] stats_list@[c]).wf(),
                forall|c: int|
                    0 <= c < stats_list@.len() ==> (#[trigger] stats_list@[c]).same_shape(
                        &stats_list@[0],
                    ),
                draws(stats_list@, stats_list@.len() as int) <= usize::MAX,
                forall|a: T, b: T| call_requires(*plus, (a, b)),
                pooled.wf(),
                pooled.meta == stats_list@[0].meta,
                pooled.same_shape(&stats_list@[0]),
                pooled.n == draws(stats_list@, c as int),
                forall|j: int, k: int|
                    0 <= j < pooled.n_data_points() && 0 <= k < pooled.n_endos() ==> totals(
                        *plus,
                        zero,
                        Seq::new(c as nat, |c: int| stats_list@[c].e_sums@[j][k]),
                        #[trigger] pooled.e_sums@[j][k],
                    ),
                forall|j: int, k: int|
                    0 <= j < pooled.n_data_points() && 0 <= k < pooled.n_endos() ==> totals(
                        *plus,
                        zero,
                        Seq::new(c as nat, |c: int| stats_list@[c].e2_sums@[j][k]),
                        #[trigger] pooled.e2_sums@[j][k],
                    ),
                forall|j: int, i: int|
                    0 <= j < pooled.n_data_points() && 0 <= i < pooled.n_traits() ==> totals(
                        *plus,
                        zero,
                        Seq::new(c as nat, |c: int| stats_list@[c].t_sums@[j][i]),
                        #[trigger] pooled.t_sums@[j][i],
                    ),
                forall|j: int, i: int|
                    0 <= j < pooled.n_data_points() && 0 <= i < pooled.n_traits() ==> totals(
                        *plus,
                        zero,
                        Seq::new(c as nat, |c: int| stats_list@[c].t2_sums@[j][i]),
                        #[trigger] pooled.t2_sums@[j][i],
                    ),
            decreases stats_list@.len() - c,
        {
            let stats = &stats_list[c];
            let ghost before = pooled;
            proof {
                lemma_draws_grow(stats_list@, c as int + 1, stats_list@.len() as int);
            }
            pooled.n = pooled.n + stats.n;
            pooled.e_sums.zip_apply(&stats.e_sums, plus);
            pooled.e2_sums.zip_apply(&stats.e2_sums, plus);
            pooled.t_sums.zip_apply(&stats.t_sums, plus);
            pooled.t2_sums.zip_apply(&stats.t2_sums, plus);
            proof {
                assert forall|j: int, k: int|
                    0 <= j < pooled.n_data_points() && 0 <= k < pooled.n_endos() implies totals(
                    *plus,
                    zero,
                    Seq::new((c + 1) as nat, |c: int| stats_list@[c].e_sums@[j][k]),
                    #[trigger] pooled.e_sums@[j][k],
                ) by {
                    let values = Seq::new((c + 1) as nat, |c: int| stats_list@[c].e_sums@[j][k]);
                    let earlier = Seq::new(c as nat, |c: int| stats_list@[c].e_sums@[j][k]);
                    assert(earlier =~= values.drop_last());
                    assert(values.last() == stats_list@[c as int].e_sums@[j][k]);
                    assert(totals(*plus, zero, earlier, before.e_sums@[j][k]));
                    lemma_totals_step(
                        *plus,
                        zero,
                        values,
                        earlier,
                        before.e_sums@[j][k],
                        pooled.e_sums@[j][k],
                    );
                }
                assert forall|j: int, k: int|
                    0 <= j < pooled.n_data_points() && 0 <= k < pooled.n_endos() implies totals(
                    *plus,
                    zero,
                    Seq::new((c + 1) as nat, |c: int| stats_list@[c].e2_sums@[j][k]),
                    #[trigger] pooled.e2_sums@[j][k],
                ) by {
                    let values = Seq::new((c + 1) as nat, |c: int| stats_list@[c].e2_sums@[j][k]);
                    let earlier = Seq::new(c as nat, |c: int| stats_list@[c].e2_sums@[j][k]);
                    assert(earlier =~= values.drop_last());
                    assert(values.last() == stats_list@[c as int].e2_sums@[j][k]);
                    assert(totals(*plus, zero, earlier, before.e2_sums@[j][k]));
                    lemma_totals_step(
                        *plus,
                        zero,
                        values,
                        earlier,
                        before.e2_sums@[j][k],
                        pooled.e2_sums@[j][k],
                    );
                }
                assert forall|j: int, i: int|
                    0 <= j < pooled.n_data_points() && 0 <= i < pooled.n_traits() implies totals(
                    *plus,
                    zero,
                    Seq::new((c + 1) as nat, |c: int| stats_list@[c].t_sums@[j][i]),
                    #[trigger] pooled.t_sums@[j][i],
                ) by {
                    let values = Seq::new((c + 1) as nat, |c: int| stats_list@[c].t_sums@[j][i]);
                    let earlier = Seq::new(c as nat, |c: int| stats_list@[c].t_sums@[j][i]);
                    assert(earlier =~= values.drop_last());
                    assert(values.last() == stats_list@[c as int].t_sums@[j][i]);
                    assert(totals(*plus, zero, earlier, before.t_sums@[j][i]));
                    lemma_totals_step(
                        *plus,
                        zero,
                        values,
                        earlier,
                        before.t_sums@[j][i],
                        pooled.t_sums@[j][i],
                    );
                }
                assert forall|j: int, i: int|
                    0 <= j < pooled.n_data_points() && 0 <= i < pooled.n_traits() implies totals(
                    *plus,
                    zero,
                    Seq::new((c + 1) as nat, |c: int| stats_list@[c].t2_sums@[j][i]),
                    #[trigger] pooled.t2_sums@[j][i],
                ) by {
                    let values = Seq::new((c + 1) as nat, |c: int| stats_list@[c].t2_sums@[j][i]);
                    let earlier = Seq::new(c as nat, |c: int| stats_list@[c].t2_sums@[j][i]);
                    assert(earlier =~= values.drop_last());
                    assert(values.last() == stats_list@[c as int].t2_sums@[j][i]);
                    assert(totals(*plus, zero, earlier, before.t2_sums@[j][i]));
                    lemma_totals_step(
                        *plus,
                        zero,
                        values,
                        earlier,
                        before.t2_sums@[j][i],
                        pooled.t2_sums@[j][i],
                    );
                }
            }
            c += 1;
        }
        pooled
    }
}

/// A total goes on by one value: where `before` is the total of all values
/// of a list but the last, and `plus` makes `total` of `before` and the last,
/// `total` is the total of the list.
pub proof fn lemma_totals_step<T, P: Fn(T, T) -> T>(
    plus: P,
    zero: T,
    values: Seq<T>,
    earlier: Seq<T>,
    before: T,
    total: T,
)
    requires
        values.len() >= 1,
        earlier =~= values.drop_last(),
        totals(plus, zero, earlier, before),
        call_ensures(plus, (before, values.last()), total),
    ensures
        totals(plus, zero, values, total),
{
    assert(earlier == values.drop_last());
    assert(totals(plus, zero, values.drop_last(), before) && call_ensures(
        plus,
        (before, values.last()),
        total,
    ));
}

/// The draws of more sets are no fewer.
pub proof fn lemma_draws_grow<T>(stats_list: Seq<VarStats<T>>, k: int, n: int)
    requires
        0 <= k <= n,
    ensures
        draws(stats_list, k) <= draws(stats_list, n),
    decreases n - k,
{
    if k < n {
        lemma_draws_grow(stats_list, k, n - 1);
    }
}

/// Whether `plus` gives a sum for two values.
pub open spec fn has_sum<T, P: Fn(T, T) -> T>(plus: P, a: T, b: T) -> bool {
    exists|sum: T| call_ensures(plus, (a, b), sum)
}

/// Whether `plus` adds as exact numbers add: it gives one sum for any two
/// values, adding `zero` changes nothing, and it does not matter which of
/// two additions is done first.
pub open spec fn adds_exactly<T, P: Fn(T, T) -> T>(plus: P, zero: T) -> bool {
    &&& forall|a: T, b: T| #[trigger] has_sum(plus, a, b)
    &&& forall|a: T, b: T, first: T, second: T|
        #[trigger] call_ensures(plus, (a, b), first) && #[trigger] call_ensures(
            plus,
            (a, b),
            second,
        ) ==> first == second
    &&& forall|a: T, sum: T| #[trigger] call_ensures(plus, (zero, a), sum) ==> sum == a
    &&& forall|a: T, sum: T| #[trigger] call_ensures(plus, (a, zero), sum) ==> sum == a
    &&& forall|a: T, b: T, c: T, ab: T, bc: T, sum: T|
        #[trigger] call_ensures(plus, (a, b), ab) && #[trigger] call_ensures(plus, (b, c), bc)
            && #[trigger] call_ensures(plus, (ab, c), sum) ==> call_ensures(plus, (a, bc), sum)
}

/// The sum of two running sums is the running sum of all the values that
/// went into them, the values of the second behind those of the first.
/// This holds where `plus` adds as exact numbers add; sums of numbers that are
/// rounded after each addition can differ in their last digits.
pub proof fn lemma_merged_totals<T, P: Fn(T, T) -> T>(
    plus: P,
    zero: T,
    first: Seq<T>,
    second: Seq<T>,
    total_first: T,
    total_second: T,
    merged: T,
)
    requires
        adds_exactly(plus, zero),
        totals(plus, zero, first, total_first),
        totals(plus, zero, second, total_second),
        call_ensures(plus, (total_first, total_second), merged),
    ensures
        totals(plus, zero, first + second, merged),
    decreases second.len(),
{
    if second.len() == 0 {
        assert(first + second =~= first);
    } else {
        let earlier = second.drop_last();
        let value = second.last();
        let total_earlier = choose|before: T|
            totals(plus, zero, earlier, before) && #[trigger] call_ensures(
                plus,
                (before, value),
                total_second,
            );
        assert(has_sum(plus, total_first, total_earlier));
        let merged_earlier = choose|sum: T|
            call_ensures(plus, (total_first, total_earlier), sum);
        assert(has_sum(plus, merged_earlier, value));
        let again = choose|sum: T| call_ensures(plus, (merged_earlier, value), sum);
        assert(call_ensures(plus, (total_first, total_second), again));
        assert(again == merged);
        lemma_merged_totals(
            plus,
            zero,
            first,
            earlier,
            total_first,
            total_earlier,
            merged_earlier,
        );
        assert((first + second).drop_last() =~= first + earlier);
        lemma_totals_step(plus, zero, first + second, first + earlier, merged_earlier, merged);
    }
}

/// Pooling two sets of sums gives, at each place, the running sum of all
/// values that went into the two, where `plus` adds as exact numbers add.
pub proof fn lemma_pooled_pair<T, P: Fn(T, T) -> T>(
    plus: P,
    zero: T,
    first: Seq<T>,
    second: Seq<T>,
    total_first: T,
    total_second: T,
    pooled: T,
)
    requires
        adds_exactly(plus, zero),
        totals(plus, zero, first, total_first),
        totals(plus, zero, second, total_second),
        totals(plus, zero, seq![total_first, total_second], pooled),
    ensures
        totals(plus, zero, first + second, pooled),
{
    let pair = seq![total_first, total_second];
    let of_first = choose|before: T|
        totals(plus, zero, pair.drop_last(), before) && #[trigger] call_ensures(
            plus,
            (before, pair.last()),
            pooled,
        );
    assert(pair.drop_last() =~= seq![total_first]);
    let of_none = choose|before: T|
        totals(plus, zero, seq![total_first].drop_last(), before) && #[trigger] call_ensures(
            plus,
            (before, seq![total_first].last()),
            of_first,
        );
    assert(seq![total_first].drop_last() =~= Seq::<T>::empty());
    assert(of_none == zero);
    assert(of_first == total_first);
    lemma_merged_totals(plus, zero, first, second, total_first, total_second, pooled);
}

} // verus!
