use crate::data::GwasData;
use crate::data::Meta;
use crate::matrix::Matrix;
use crate::params::Params;
use crate::vars::n_vars_spec;
use crate::vars::var_index_at;
use crate::vars::VarIndex;
use vstd::prelude::*;

verus! {

/// The latent variables of one chain: for each data point the value of each
/// endophenotype and of each trait.
#[derive(Clone, Debug)]
pub struct Vars<T> {
    pub meta: Meta,
    pub es: Matrix<T>,
    pub ts: Matrix<T>,
}

impl<T> Vars<T> {
    /// There is a row for each data point, and in the traits' values a
    /// column for each trait.
    pub open spec fn wf(&self) -> bool {
        &&& self.es.wf()
        &&& self.ts.wf()
        &&& self.es.rows() == self.meta.ids().len()
        &&& self.ts.rows() == self.meta.ids().len()
        &&& self.ts.cols() == self.meta.names().len()
    }

    pub open spec fn n_data_points(&self) -> nat {
        self.es.rows()
    }

    pub open spec fn n_endos(&self) -> nat {
        self.es.cols()
    }

    pub open spec fn n_traits(&self) -> nat {
        self.ts.cols()
    }

    /// Whether two sets of variables are for the same data and have the same
    /// numbers of variables.
    pub open spec fn same_shape(&self, other: &Self) -> bool {
        &&& self.meta == other.meta
        &&& self.es.rows() == other.es.rows()
        &&& self.es.cols() == other.es.cols()
        &&& self.ts.rows() == other.ts.rows()
        &&& self.ts.cols() == other.ts.cols()
    }

    /// The value of one variable.
    pub open spec fn value(&self, index: VarIndex) -> T {
        match index {
            VarIndex::E { i_data_point, i_endo } => self.es@[i_data_point as int][i_endo as int],
            VarIndex::T { i_data_point, i_trait } => self.ts@[i_data_point as int][i_trait as int],
        }
    }

    /// Whether `after` is `self` with the variable `index` set to `value`, and
    /// nothing else changed.
    pub open spec fn updated(&self, after: &Self, index: VarIndex, value: T) -> bool {
        &&& after.wf()
        &&& self.same_shape(after)
        &&& match index {
            VarIndex::E { i_data_point, i_endo } => {
                &&& after.es@ == self.es@.update(
                    i_data_point as int,
                    self.es@[i_data_point as int].update(i_endo as int, value),
                )
                &&& after.ts@ == self.ts@
            },
            VarIndex::T { i_data_point, i_trait } => {
                &&& after.es@ == self.es@
                &&& after.ts@ == self.ts@.update(
                    i_data_point as int,
                    self.ts@[i_data_point as int].update(i_trait as int, value),
                )
            },
        }
    }

    /// The value of one variable.
    pub fn get(&self, index: VarIndex) -> (value: &T)
        requires
            self.wf(),
            index.in_range(self.n_data_points(), self.n_endos(), self.n_traits()),
        ensures
            *value == self.value(index),
    {
        match index {
            VarIndex::E { i_data_point, i_endo } => self.es.get(i_data_point, i_endo),
            VarIndex::T { i_data_point, i_trait } => self.ts.get(i_data_point, i_trait),
        }
    }

    /// Gives one variable a new value.
    pub fn set(&mut self, index: VarIndex, value: T)
        requires
            old(self).wf(),
            index.in_range(old(self).n_data_points(), old(self).n_endos(), old(self).n_traits()),
        ensures
            old(self).updated(final(self), index, value),
    {
        match index {
            VarIndex::E { i_data_point, i_endo } => {
                self.es.set(i_data_point, i_endo, value);
            },
            VarIndex::T { i_data_point, i_trait } => {
                self.ts.set(i_data_point, i_trait, value);
            },
        }
    }
}

impl<T: Copy> Vars<T> {
    /// The variables at the start of a chain: each endophenotype has its prior
    /// mean for every data point, and each trait the value that `predict`
    /// gives for the data point and the trait.
    pub fn initial_vars<F: Fn(usize, usize) -> T>(
        data: &GwasData<T>,
        params: &Params<T>,
        predict: F,
    ) -> (vars: Vars<T>)
        requires
            data.wf(),
            params.wf(),
            data.meta.ids().len() * params@.n_endos() <= usize::MAX,
            forall|j: usize, i: usize|
                j < data.meta.ids().len() && i < data.meta.names().len() ==> call_requires(
                    predict,
                    (j, i),
                ),
        ensures
            vars.wf(),
            vars.meta == data.meta,
            vars.n_endos() == params@.n_endos(),
            forall|j: int, k: int|
                0 <= j < vars.n_data_points() && 0 <= k < vars.n_endos() ==> (
                #[trigger] vars.es@[j][k]) == params@.mus[k],
            forall|j: usize, i: usize|
                j < vars.n_data_points() && i < vars.n_traits() ==> call_ensures(
                    predict,
                    (j, i),
                    #[trigger] vars.ts@[j as int][i as int],
                ),
    {
        let n_data_points = data.n_data_points();
        let n_endos = params.n_endos();
        let n_traits = data.n_traits();
        let mus = params.mus();
        let mut es_elements: Vec<T> = Vec::new();
        let mut j: usize = 0;
        while j < n_data_points
            invariant
                j <= n_data_points,
                n_endos == mus@.len(),
                n_data_points * n_endos <= usize::MAX,
                es_elements@.len() == j * n_endos,
                forall|r: int, k: int|
                    0 <= r < j && 0 <= k < n_endos ==> (#[trigger] es_elements@[crate::matrix::place(
                        n_endos as nat,
                        r,
                        k,
                    )]) == mus@[k],
            decreases n_data_points - j,
        {
            let mut k: usize = 0;
            while k < n_endos
                invariant
                    j < n_data_points,
                    k <= n_endos,
                    n_endos == mus@.len(),
                    es_elements@.len() == j * n_endos + k,
                    forall|r: int, c: int|
                        (0 <= r < j && 0 <= c < n_endos) || (r == j && 0 <= c < k) ==> (
                        #[trigger] es_elements@[crate::matrix::place(n_endos as nat, r, c)])
                            == mus@[c],
                decreases n_endos - k,
            {
                let ghost before = es_elements@;
                es_elements.push(mus[k]);
                proof {
                    assert forall|r: int, c: int|
                        (0 <= r < j && 0 <= c < n_endos) || (r == j && 0 <= c < k + 1) implies (
                    #[trigger] es_elements@[crate::matrix::place(n_endos as nat, r, c)])
                        == mus@[c] by {
                        if r == j && c == k {
                        } else {
                            if r < j {
                                crate::matrix::lemma_place_in_range(j as nat, n_endos as nat, r, c);
                            }
                            assert(es_elements@[crate::matrix::place(n_endos as nat, r, c)]
                                == before[crate::matrix::place(n_endos as nat, r, c)]);
                        }
                    }
                }
                k += 1;
            }
            proof {
                assert((j + 1) * n_endos == j * n_endos + n_endos) by (nonlinear_arith);
            }
            j += 1;
        }
        let es = match Matrix::from_vec(n_data_points, n_endos, es_elements) {
            Ok(es) => es,
            Err(_) => {
                proof {
                    assert(false);
                }
                vstd::pervasive::unreached()
            },
        };
        proof {
            data.betas.lemma_view();
            es.lemma_view();
        }
        let ts = Matrix::fill(n_data_points, n_traits, predict);
        Vars { meta: data.meta.share(), es, ts }
    }
}

/// Whether `after` is what one step of a sweep makes of `before`: the
/// variable `index` has a value that `draw` gives for it from `before`, and
/// nothing else changed.
pub open spec fn is_step<T, F: Fn(&Vars<T>, VarIndex) -> T>(
    before: &Vars<T>,
    after: &Vars<T>,
    index: VarIndex,
    draw: F,
) -> bool {
    exists|value: T|
        #[trigger] call_ensures(draw, (before, index), value) && before.updated(
            after,
            index,
            value,
        )
}

/// Whether a list of states is a full sweep: it has one state more than
/// there are variables, and each state but the first is one step from the
/// state before it, whose variable is the one whose turn it is.
pub open spec fn is_sweep<T, F: Fn(&Vars<T>, VarIndex) -> T>(states: Seq<Vars<T>>, draw: F) -> bool {
    &&& states.len() >= 1
    &&& states.len() == n_vars_spec(
        states[0].n_data_points(),
        states[0].n_endos(),
        states[0].n_traits(),
    ) + 1
    &&& forall|k: int|
        0 <= k < states.len() - 1 ==> is_step(
            &states[k],
            &#[trigger] states[k + 1],
            VarIndex::at(k, states[0].n_endos(), states[0].n_traits()),
            draw,
        )
}

/// One full sweep of a chain: visits every data point in turn, and for each
/// first every endophenotype, then every trait, and gives each variable the
/// value that `draw` draws for it from the values of all variables at that
/// moment.
pub fn sample_one<T: Copy, F: Fn(&Vars<T>, VarIndex) -> T>(vars: &mut Vars<T>, draw: F)
    requires
        old(vars).wf(),
        old(vars).n_endos() + old(vars).n_traits() <= usize::MAX,
        n_vars_spec(old(vars).n_data_points(), old(vars).n_endos(), old(vars).n_traits())
            <= usize::MAX,
        forall|state: Vars<T>, index: VarIndex|
            state.wf() && old(vars).same_shape(&state) && index.in_range(
                state.n_data_points(),
                state.n_endos(),
                state.n_traits(),
            ) ==> #[trigger] call_requires(draw, (&state, index)),
    ensures
        final(vars).wf(),
        old(vars).same_shape(final(vars)),
        exists|states: Seq<Vars<T>>| #[trigger]
            is_sweep(states, draw) && states[0] == *old(vars) && states.last() == *final(vars),
{
    let n_data_points = vars.es.n_rows();
    let n_endos = vars.es.n_cols();
    let n_traits = vars.ts.n_cols();
    let per_point = n_endos + n_traits;
    let ghost start = *vars;
    let ghost mut states: Seq<Vars<T>> = seq![*vars];
    if per_point == 0 {
        proof {
            assert(n_data_points * 0 == 0) by (nonlinear_arith);
            assert(is_sweep(states, draw));
        }
        return ;
    }
    let n_vars = n_data_points * per_point;
    let mut k: usize = 0;
    while k < n_vars
        invariant
            k <= n_vars,
            n_vars == n_vars_spec(n_data_points as nat, n_endos as nat, n_traits as nat),
            per_point == n_endos + n_traits,
            per_point > 0,
            start.wf(),
            vars.wf(),
            start.same_shape(vars),
            n_data_points == start.n_data_points(),
            n_endos == start.n_endos(),
            n_traits == start.n_traits(),
            states.len() == k + 1,
            states[0] == start,
            states.last() == *vars,
            forall|state: Vars<T>, index: VarIndex|
                state.wf() && start.same_shape(&state) && index.in_range(
                    state.n_data_points(),
                    state.n_endos(),
                    state.n_traits(),
                ) ==> #[trigger] call_requires(draw, (&state, index)),
            forall|s: int|
                0 <= s < states.len() - 1 ==> is_step(
                    &states[s],
                    &#[trigger] states[s + 1],
                    VarIndex::at(s, n_endos as nat, n_traits as nat),
                    draw,
                ),
        decreases n_vars - k,
    {
        let index = var_index_at(k, n_endos, n_traits);
        proof {
            crate::vars::lemma_turn_at(
                k as int,
                n_data_points as nat,
                n_endos as nat,
                n_traits as nat,
            );
        }
        let ghost before = *vars;
        proof {
            assert(start.same_shape(&before));
            assert(call_requires(draw, (&before, index)));
        }
        let value = draw(&*vars, index);
        vars.set(index, value);
        proof {
            let earlier = states;
            states = states.push(*vars);
            assert(call_ensures(draw, (&before, index), value) && before.updated(
                vars,
                index,
                value,
            ));
            assert(is_step(&before, vars, index, draw));
            assert forall|s: int| 0 <= s < states.len() - 1 implies is_step(
                &states[s],
                &#[trigger] states[s + 1],
                VarIndex::at(s, n_endos as nat, n_traits as nat),
                draw,
            ) by {
                if s < k {
                    assert(states[s] == earlier[s]);
                    assert(states[s + 1] == earlier[s + 1]);
                } else {
                    assert(states[s] == before);
                    assert(states[s + 1] == *vars);
                }
            }
        }
        k += 1;
    }
    proof {
        assert(is_sweep(states, draw));
    }
}

} // verus!
