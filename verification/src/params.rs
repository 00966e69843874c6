use crate::error::Error;
use crate::error::ErrorKind;
use crate::matrix::place;
use crate::matrix::Matrix;
use crate::text::count_string;
use crate::text::decimal;
use crate::text::views;
use std::sync::Arc;
use vstd::prelude::*;
use vstd::string::StringExecFns;

verus! {

pub const MSG_TOO_MANY_PARAMS: &'static str = "The number of parameters is beyond what can be counted.";

pub const MSG_SHAPES_DIFFER: &'static str =
    "The parameters do not agree on the number of endophenotypes or of traits.";

/// The name of one parameter of the model.
#[derive(Clone, Copy, PartialEq, Eq, Debug, Structural)]
pub enum ParamIndex {
    /// The prior mean of an endophenotype.
    Mu(usize),
    /// The prior standard deviation of an endophenotype.
    Tau(usize),
    /// The loading of an endophenotype on a trait.
    Beta(usize, usize),
    /// The residual standard deviation of a trait.
    Sigma(usize),
}

/// The number of parameters of a model.
pub open spec fn n_params_spec(n_endos: nat, n_traits: nat) -> nat {
    n_endos * (2 + n_traits) + n_traits
}

impl ParamIndex {
    /// Whether the parameter exists in a model of the given size.
    pub open spec fn in_range(self, n_endos: nat, n_traits: nat) -> bool {
        match self {
            ParamIndex::Mu(i_endo) => i_endo < n_endos,
            ParamIndex::Tau(i_endo) => i_endo < n_endos,
            ParamIndex::Beta(i_endo, i_trait) => i_endo < n_endos && i_trait < n_traits,
            ParamIndex::Sigma(i_trait) => i_trait < n_traits,
        }
    }

    /// The place of the parameter in the flat list of all parameters: the
    /// means first, then the standard deviations of the endophenotypes, then
    /// the loadings, endophenotype by endophenotype, then the standard
    /// deviations of the traits.
    pub open spec fn ordinal(self, n_endos: nat, n_traits: nat) -> int {
        match self {
            ParamIndex::Mu(i_endo) => i_endo as int,
            ParamIndex::Tau(i_endo) => n_endos + i_endo,
            ParamIndex::Beta(i_endo, i_trait) => 2 * n_endos + place(
                n_traits,
                i_endo as int,
                i_trait as int,
            ),
            ParamIndex::Sigma(i_trait) => i_trait + n_endos * (2 + n_traits),
        }
    }

    /// The parameter at a place of the flat list.
    pub open spec fn at(k: int, n_endos: nat, n_traits: nat) -> ParamIndex {
        if k < n_endos {
            ParamIndex::Mu(k as usize)
        } else if k < 2 * n_endos {
            ParamIndex::Tau((k - n_endos) as usize)
        } else if k < n_endos * (2 + n_traits) {
            ParamIndex::Beta(
                ((k - 2 * n_endos) / (n_traits as int)) as usize,
                ((k - 2 * n_endos) % (n_traits as int)) as usize,
            )
        } else {
            ParamIndex::Sigma((k - n_endos * (2 + n_traits)) as usize)
        }
    }

    /// How the parameter is called when the traits have names.
    pub open spec fn name_with_traits(self, trait_names: Seq<Seq<char>>) -> Seq<char> {
        match self {
            ParamIndex::Mu(i_endo) => "mu_"@ + decimal(i_endo as nat),
            ParamIndex::Tau(i_endo) => "tau_"@ + decimal(i_endo as nat),
            ParamIndex::Beta(i_endo, i_trait) => "beta_"@ + decimal(i_endo as nat) + "_"@
                + trait_names[i_trait as int],
            ParamIndex::Sigma(i_trait) => "sigma_"@ + trait_names[i_trait as int],
        }
    }

    /// How the parameter is called by numbers alone.
    pub open spec fn name(self) -> Seq<char> {
        match self {
            ParamIndex::Mu(i_endo) => "mu_"@ + decimal(i_endo as nat),
            ParamIndex::Tau(i_endo) => "tau_"@ + decimal(i_endo as nat),
            ParamIndex::Beta(i_endo, i_trait) => "beta_"@ + decimal(i_endo as nat) + "_"@
                + decimal(i_trait as nat),
            ParamIndex::Sigma(i_trait) => "sigma_"@ + decimal(i_trait as nat),
        }
    }
}

/// The place of a parameter of a model lies within the flat list, and the
/// parameter at that place is the parameter itself.
pub proof fn lemma_at_ordinal(index: ParamIndex, n_endos: nat, n_traits: nat)
    requires
        index.in_range(n_endos, n_traits),
    ensures
        0 <= index.ordinal(n_endos, n_traits) < n_params_spec(n_endos, n_traits),
        ParamIndex::at(index.ordinal(n_endos, n_traits), n_endos, n_traits) == index,
{
    assert(n_endos * (2 + n_traits) == 2 * n_endos + n_endos * n_traits) by (nonlinear_arith);
    match index {
        ParamIndex::Beta(i_endo, i_trait) => {
            crate::matrix::lemma_place_in_range(n_endos, n_traits, i_endo as int, i_trait as int);
            crate::matrix::lemma_place_unique(n_traits, i_endo as int, i_trait as int);
        },
        _ => {
            assert(n_endos * n_traits >= 0) by (nonlinear_arith);
        },
    }
}

/// Each place of the flat list holds a parameter of the model, whose place
/// it is.
pub proof fn lemma_ordinal_at(k: int, n_endos: nat, n_traits: nat)
    requires
        0 <= k < n_params_spec(n_endos, n_traits),
        n_params_spec(n_endos, n_traits) <= usize::MAX,
    ensures
        ParamIndex::at(k, n_endos, n_traits).in_range(n_endos, n_traits),
        ParamIndex::at(k, n_endos, n_traits).ordinal(n_endos, n_traits) == k,
{
    assert(n_endos * (2 + n_traits) == 2 * n_endos + n_endos * n_traits) by (nonlinear_arith);
    assert(n_endos * n_traits >= 0) by (nonlinear_arith);
    if 2 * n_endos <= k < n_endos * (2 + n_traits) {
        let r = k - 2 * n_endos;
        let c = n_traits as int;
        assert(c > 0) by (nonlinear_arith)
            requires
                0 <= r < n_endos * c,
                c >= 0,
        ;
        lemma_quotient_in_range(r, c, n_endos as int);
    }
}

/// A number under `n` times `c` is `c` times its quotient by `c`, which is
/// under `n`, and its remainder, which is under `c`.
pub proof fn lemma_quotient_in_range(r: int, c: int, n: int)
    requires
        0 <= r < n * c,
        c > 0,
    ensures
        0 <= r / c < n,
        0 <= r % c < c,
        (r / c) * c + r % c == r,
{
    vstd::arithmetic::div_mod::lemma_fundamental_div_mod(r, c);
    vstd::arithmetic::div_mod::lemma_mod_bound(r, c);
    vstd::arithmetic::div_mod::lemma_div_pos_is_pos(r, c);
    vstd::arithmetic::mul::lemma_mul_is_commutative(n, c);
    vstd::arithmetic::div_mod::lemma_multiply_divide_lt(r, c, n);
    vstd::arithmetic::mul::lemma_mul_is_commutative(c, r / c);
}

/// The number of parameters of a model, where it can be counted.
pub fn checked_n_params(n_endos: usize, n_traits: usize) -> (n: Option<usize>)
    ensures
        n_params_spec(n_endos as nat, n_traits as nat) <= usize::MAX ==> n == Some(
            n_params_spec(n_endos as nat, n_traits as nat) as usize,
        ),
        n_params_spec(n_endos as nat, n_traits as nat) > usize::MAX ==> n is None,
{
    proof {
        assert(n_endos * (2 + n_traits) >= 0) by (nonlinear_arith);
        assert(n_endos * (2 + n_traits) >= 2 + n_traits || n_endos == 0) by (nonlinear_arith);
    }
    if n_endos == 0 {
        proof {
            assert(n_endos * (2 + n_traits) == 0) by (nonlinear_arith)
                requires
                    n_endos == 0,
            ;
        }
        return Some(n_traits);
    }
    match n_traits.checked_add(2) {
        None => None,
        Some(per_endo) => match n_endos.checked_mul(per_endo) {
            None => None,
            Some(of_endos) => of_endos.checked_add(n_traits),
        },
    }
}

impl ParamIndex {
    /// The number of parameters of a model with `n_endos` endophenotypes and
    /// `n_traits` traits.
    pub fn n_params(n_endos: usize, n_traits: usize) -> (n: usize)
        requires
            n_params_spec(n_endos as nat, n_traits as nat) <= usize::MAX,
        ensures
            n == n_params_spec(n_endos as nat, n_traits as nat),
    {
        match checked_n_params(n_endos, n_traits) {
            Some(n) => n,
            None => 0,
        }
    }

    /// The place of the parameter in the flat list of all parameters.
    pub fn get_ordinal(&self, n_endos: usize, n_traits: usize) -> (ordinal: usize)
        requires
            self.in_range(n_endos as nat, n_traits as nat),
            n_params_spec(n_endos as nat, n_traits as nat) <= usize::MAX,
        ensures
            ordinal == self.ordinal(n_endos as nat, n_traits as nat),
            ordinal < n_params_spec(n_endos as nat, n_traits as nat),
    {
        proof {
            lemma_at_ordinal(*self, n_endos as nat, n_traits as nat);
            assert(n_endos * (2 + n_traits) == 2 * n_endos + n_endos * n_traits)
                by (nonlinear_arith);
            assert(n_endos * n_traits >= 0) by (nonlinear_arith);
        }
        match self {
            ParamIndex::Mu(i_endo) => *i_endo,
            ParamIndex::Tau(i_endo) => n_endos + *i_endo,
            ParamIndex::Beta(i_endo, i_trait) => {
                proof {
                    crate::matrix::lemma_place_in_range(
                        n_endos as nat,
                        n_traits as nat,
                        *i_endo as int,
                        *i_trait as int,
                    );
                    assert(*i_endo * n_traits >= 0) by (nonlinear_arith);
                }
                2 * n_endos + *i_endo * n_traits + *i_trait
            },
            ParamIndex::Sigma(i_trait) => 2 * n_endos + n_endos * n_traits + *i_trait,
        }
    }

    /// All parameters of a model, in the order of the flat list.
    pub fn all(n_endos: usize, n_traits: usize) -> (all: Vec<ParamIndex>)
        requires
            n_params_spec(n_endos as nat, n_traits as nat) <= usize::MAX,
        ensures
            all@.len() == n_params_spec(n_endos as nat, n_traits as nat),
            forall|k: int|
                0 <= k < all@.len() ==> (#[trigger] all@[k]) == ParamIndex::at(
                    k,
                    n_endos as nat,
                    n_traits as nat,
                ),
    {
        let ghost e = n_endos as nat;
        let ghost t = n_traits as nat;
        proof {
            assert(e * (2 + t) == 2 * e + e * t) by (nonlinear_arith);
            assert(e * t >= 0) by (nonlinear_arith);
        }
        let mut all: Vec<ParamIndex> = Vec::new();
        let mut i_endo: usize = 0;
        while i_endo < n_endos
            invariant
                i_endo <= n_endos,
                all@.len() == i_endo,
                e == n_endos,
                t == n_traits,
                forall|k: int| 0 <= k < all@.len() ==> (#[trigger] all@[k]) == ParamIndex::at(k, e, t),
            decreases n_endos - i_endo,
        {
            all.push(ParamIndex::Mu(i_endo));
            i_endo += 1;
        }
        i_endo = 0;
        while i_endo < n_endos
            invariant
                i_endo <= n_endos,
                all@.len() == n_endos + i_endo,
                e == n_endos,
                t == n_traits,
                forall|k: int| 0 <= k < all@.len() ==> (#[trigger] all@[k]) == ParamIndex::at(k, e, t),
            decreases n_endos - i_endo,
        {
            all.push(ParamIndex::Tau(i_endo));
            i_endo += 1;
        }
        i_endo = 0;
        while i_endo < n_endos
            invariant
                i_endo <= n_endos,
                all@.len() == 2 * n_endos + i_endo * n_traits,
                e == n_endos,
                t == n_traits,
                e * (2 + t) == 2 * e + e * t,
                n_params_spec(e, t) <= usize::MAX,
                forall|k: int| 0 <= k < all@.len() ==> (#[trigger] all@[k]) == ParamIndex::at(k, e, t),
            decreases n_endos - i_endo,
        {
            let mut i_trait: usize = 0;
            while i_trait < n_traits
                invariant
                    i_endo < n_endos,
                    i_trait <= n_traits,
                    all@.len() == 2 * n_endos + i_endo * n_traits + i_trait,
                    e == n_endos,
                    t == n_traits,
                    e * (2 + t) == 2 * e + e * t,
                    n_params_spec(e, t) <= usize::MAX,
                    forall|k: int|
                        0 <= k < all@.len() ==> (#[trigger] all@[k]) == ParamIndex::at(k, e, t),
                decreases n_traits - i_trait,
            {
                proof {
                    let index = ParamIndex::Beta(i_endo, i_trait);
                    lemma_at_ordinal(index, e, t);
                }
                all.push(ParamIndex::Beta(i_endo, i_trait));
                i_trait += 1;
            }
            proof {
                assert((i_endo + 1) * n_traits == i_endo * n_traits + n_traits)
                    by (nonlinear_arith);
            }
            i_endo += 1;
        }
        let mut i_trait: usize = 0;
        while i_trait < n_traits
            invariant
                i_trait <= n_traits,
                all@.len() == n_endos * (2 + n_traits) + i_trait,
                e == n_endos,
                t == n_traits,
                e * (2 + t) == 2 * e + e * t,
                n_params_spec(e, t) <= usize::MAX,
                forall|k: int| 0 <= k < all@.len() ==> (#[trigger] all@[k]) == ParamIndex::at(k, e, t),
            decreases n_traits - i_trait,
        {
            all.push(ParamIndex::Sigma(i_trait));
            i_trait += 1;
        }
        all
    }

    /// The name of the parameter, with the name of its trait where it has one.
    pub fn with_trait_name(&self, trait_names: &Vec<String>) -> (name: String)
        requires
            match *self {
                ParamIndex::Mu(i_endo) => true,
                ParamIndex::Tau(i_endo) => true,
                ParamIndex::Beta(i_endo, i_trait) => i_trait < trait_names@.len(),
                ParamIndex::Sigma(i_trait) => i_trait < trait_names@.len(),
            },
        ensures
            name@ == self.name_with_traits(views(trait_names@)),
    {
        match self {
            ParamIndex::Mu(i_endo) => {
                let mut name = String::from_str("mu_");
                name.append(count_string(*i_endo).as_str());
                name
            },
            ParamIndex::Tau(i_endo) => {
                let mut name = String::from_str("tau_");
                name.append(count_string(*i_endo).as_str());
                name
            },
            ParamIndex::Beta(i_endo, i_trait) => {
                let mut name = String::from_str("beta_");
                name.append(count_string(*i_endo).as_str());
                name.append("_");
                name.append(trait_names[*i_trait].as_str());
                name
            },
            ParamIndex::Sigma(i_trait) => {
                let mut name = String::from_str("sigma_");
                name.append(trait_names[*i_trait].as_str());
                name
            },
        }
    }

    /// The name of the parameter by numbers alone.
    pub fn to_text(&self) -> (name: String)
        ensures
            name@ == self.name(),
    {
        match self {
            ParamIndex::Mu(i_endo) => {
                let mut name = String::from_str("mu_");
                name.append(count_string(*i_endo).as_str());
                name
            },
            ParamIndex::Tau(i_endo) => {
                let mut name = String::from_str("tau_");
                name.append(count_string(*i_endo).as_str());
                name
            },
            ParamIndex::Beta(i_endo, i_trait) => {
                let mut name = String::from_str("beta_");
                name.append(count_string(*i_endo).as_str());
                name.append("_");
                name.append(count_string(*i_trait).as_str());
                name
            },
            ParamIndex::Sigma(i_trait) => {
                let mut name = String::from_str("sigma_");
                name.append(count_string(*i_trait).as_str());
                name
            },
        }
    }
}

/// A set of parameters as a mathematical value.
pub struct ParamsView<T> {
    pub trait_names: Seq<Seq<char>>,
    /// The prior mean of each endophenotype.
    pub mus: Seq<T>,
    /// The prior standard deviation of each endophenotype.
    pub taus: Seq<T>,
    /// The loadings: for each endophenotype, one for each trait.
    pub betas: Seq<Seq<T>>,
    /// The residual standard deviation of each trait.
    pub sigmas: Seq<T>,
}

impl<T> ParamsView<T> {
    pub open spec fn n_endos(self) -> nat {
        self.mus.len()
    }

    pub open spec fn n_traits(self) -> nat {
        self.trait_names.len()
    }

    /// Every part has the size that the numbers of endophenotypes and of
    /// traits ask for.
    pub open spec fn wf(self) -> bool {
        &&& self.taus.len() == self.mus.len()
        &&& self.betas.len() == self.mus.len()
        &&& self.sigmas.len() == self.trait_names.len()
        &&& forall|k: int|
            0 <= k < self.betas.len() ==> (#[trigger] self.betas[k]).len()
                == self.trait_names.len()
    }

    /// The value of one parameter.
    pub open spec fn param(self, index: ParamIndex) -> T {
        match index {
            ParamIndex::Mu(i_endo) => self.mus[i_endo as int],
            ParamIndex::Tau(i_endo) => self.taus[i_endo as int],
            ParamIndex::Beta(i_endo, i_trait) => self.betas[i_endo as int][i_trait as int],
            ParamIndex::Sigma(i_trait) => self.sigmas[i_trait as int],
        }
    }

    /// The values of all parameters as one flat list.
    pub open spec fn flat(self) -> Seq<T> {
        Seq::new(
            n_params_spec(self.n_endos(), self.n_traits()),
            |k: int| self.param(ParamIndex::at(k, self.n_endos(), self.n_traits())),
        )
    }

    /// The parameters that a flat list of values stands for.
    pub open spec fn from_flat(values: Seq<T>, trait_names: Seq<Seq<char>>, n_endos: nat) -> Self {
        let t = trait_names.len();
        ParamsView {
            trait_names,
            mus: Seq::new(n_endos, |k: int| values[k]),
            taus: Seq::new(n_endos, |k: int| values[n_endos + k]),
            betas: Seq::new(
                n_endos,
                |k: int| Seq::new(t, |i: int| values[2 * n_endos + place(t, k, i)]),
            ),
            sigmas: Seq::new(t, |i: int| values[i + n_endos * (2 + t)]),
        }
    }
}

/// The parameters that a flat list stands for are well formed, and each has
/// the value at its place of the list.
pub proof fn lemma_from_flat<T>(
    values: Seq<T>,
    trait_names: Seq<Seq<char>>,
    n_endos: nat,
    index: ParamIndex,
)
    requires
        index.in_range(n_endos, trait_names.len()),
    ensures
        ParamsView::from_flat(values, trait_names, n_endos).wf(),
        ParamsView::from_flat(values, trait_names, n_endos).n_endos() == n_endos,
        ParamsView::from_flat(values, trait_names, n_endos).n_traits() == trait_names.len(),
        ParamsView::from_flat(values, trait_names, n_endos).param(index) == values[index.ordinal(
            n_endos,
            trait_names.len(),
        )],
{
}

/// A set of parameters, written as a flat list and read back from it, is the
/// set itself: every field has the values it had.
pub proof fn lemma_flat_round_trip<T>(params: ParamsView<T>)
    requires
        params.wf(),
        n_params_spec(params.n_endos(), params.n_traits()) <= usize::MAX,
    ensures
        params.flat().len() == n_params_spec(params.n_endos(), params.n_traits()),
        ParamsView::from_flat(params.flat(), params.trait_names, params.n_endos()) == params,
{
    let e = params.n_endos();
    let t = params.n_traits();
    let back = ParamsView::from_flat(params.flat(), params.trait_names, e);
    assert(e * (2 + t) == 2 * e + e * t) by (nonlinear_arith);
    assert(e * t >= 0) by (nonlinear_arith);
    assert forall|k: int| 0 <= k < e implies back.mus[k] == params.mus[k] by {
        lemma_at_ordinal(ParamIndex::Mu(k as usize), e, t);
    }
    assert(back.mus =~= params.mus);
    assert forall|k: int| 0 <= k < e implies back.taus[k] == params.taus[k] by {
        lemma_at_ordinal(ParamIndex::Tau(k as usize), e, t);
    }
    assert(back.taus =~= params.taus);
    assert forall|i: int| 0 <= i < t implies back.sigmas[i] == params.sigmas[i] by {
        lemma_at_ordinal(ParamIndex::Sigma(i as usize), e, t);
    }
    assert(back.sigmas =~= params.sigmas);
    assert forall|k: int| 0 <= k < e implies back.betas[k] =~= params.betas[k] by {
        assert(params.betas[k].len() == t);
        assert forall|i: int| 0 <= i < t implies back.betas[k][i] == params.betas[k][i] by {
            lemma_at_ordinal(ParamIndex::Beta(k as usize, i as usize), e, t);
        }
    }
    assert(back.betas =~= params.betas);
}

/// What to put in place of the prior means and standard deviations of a set
/// of parameters.
#[derive(Clone, Copy, Debug)]
pub struct ParamsOverride<T> {
    pub mu: Option<T>,
    pub tau: Option<T>,
}

/// `Arc`'s `clone`: one more handle on the same shared value.
#[verifier::external_body]
pub(crate) fn share<V>(shared: &Arc<V>) -> (handle: Arc<V>)
    ensures
        handle == *shared,
{
    shared.clone()
}

/// A list of the same values.
pub(crate) fn copied<T: Copy>(values: &Vec<T>) -> (copy: Vec<T>)
    ensures
        copy@ == values@,
{
    let mut copy: Vec<T> = Vec::new();
    let mut i: usize = 0;
    while i < values.len()
        invariant
            i <= values@.len(),
            copy@ == values@.take(i as int),
        decreases values@.len() - i,
    {
        copy.push(values[i]);
        proof {
            assert(copy@ =~= values@.take(i + 1));
        }
        i += 1;
    }
    proof {
        assert(values@.take(i as int) == values@);
    }
    copy
}

/// A list of `n` times the same value.
pub(crate) fn repeated<T: Copy>(value: T, n: usize) -> (list: Vec<T>)
    ensures
        list@ == Seq::new(n as nat, |i: int| value),
{
    let mut list: Vec<T> = Vec::new();
    while list.len() < n
        invariant
            list@.len() <= n,
            list@ == Seq::new(list@.len(), |i: int| value),
        decreases n - list@.len(),
    {
        list.push(value);
        proof {
            assert(list@ =~= Seq::new(list@.len(), |i: int| value));
        }
    }
    list
}

/// The parameters of the model: for each endophenotype its prior mean and
/// standard deviation, for each endophenotype and trait a loading, for each
/// trait a residual standard deviation.
#[derive(Clone, Debug)]
pub struct Params<T> {
    trait_names: Arc<Vec<String>>,
    mus: Vec<T>,
    taus: Vec<T>,
    betas: Matrix<T>,
    sigmas: Vec<T>,
}

impl<T> View for Params<T> {
    type V = ParamsView<T>;

    closed spec fn view(&self) -> ParamsView<T> {
        ParamsView {
            trait_names: views((*self.trait_names)@),
            mus: self.mus@,
            taus: self.taus@,
            betas: self.betas@,
            sigmas: self.sigmas@,
        }
    }
}

impl<T> Params<T> {
    /// The parts agree on the numbers of endophenotypes and of traits.
    pub closed spec fn wf(&self) -> bool {
        &&& self.betas.wf()
        &&& self.betas.rows() == self.mus@.len()
        &&& self.betas.cols() == (*self.trait_names)@.len()
        &&& self@.wf()
    }

    /// The names of the traits, as the strings that hold them.
    pub closed spec fn names(&self) -> Seq<String> {
        (*self.trait_names)@
    }

    /// Puts a set of parameters together. Refused where the parts do not
    /// agree on the numbers of endophenotypes and of traits: there has to be
    /// a mean, a standard deviation and a row of loadings for each
    /// endophenotype, and a name, a column of loadings and a standard
    /// deviation for each trait.
    pub fn new(
        trait_names: Arc<Vec<String>>,
        mus: Vec<T>,
        taus: Vec<T>,
        betas: Matrix<T>,
        sigmas: Vec<T>,
    ) -> (outcome: Result<Self, Error>)
        requires
            betas.wf(),
        ensures
            ({
                let agree = taus@.len() == mus@.len() && betas.rows() == mus@.len() && betas.cols()
                    == (*trait_names)@.len() && sigmas@.len() == (*trait_names)@.len();
                &&& agree ==> outcome is Ok && outcome->Ok_0.wf() && outcome->Ok_0.names()
                    == (*trait_names)@ && outcome->Ok_0@ == (ParamsView {
                    trait_names: views((*trait_names)@),
                    mus: mus@,
                    taus: taus@,
                    betas: betas@,
                    sigmas: sigmas@,
                })
                &&& !agree ==> outcome is Err && outcome->Err_0.kind == ErrorKind::Mocasa
                    && outcome->Err_0.message@ == MSG_SHAPES_DIFFER@
            }),
    {
        proof {
            betas.lemma_view();
        }
        let n_endos = mus.len();
        let n_traits = trait_names.len();
        if taus.len() == n_endos && betas.n_rows() == n_endos && betas.n_cols() == n_traits
            && sigmas.len() == n_traits {
            Ok(Params { trait_names, mus, taus, betas, sigmas })
        } else {
            Err(Error::mocasa(MSG_SHAPES_DIFFER))
        }
    }

    pub fn n_endos(&self) -> (n: usize)
        ensures
            n == self@.n_endos(),
    {
        self.mus.len()
    }

    pub fn n_traits(&self) -> (n: usize)
        ensures
            n == self@.n_traits(),
    {
        self.trait_names.len()
    }

    pub fn trait_names(&self) -> (trait_names: &Arc<Vec<String>>)
        ensures
            (**trait_names)@ == self.names(),
            views((**trait_names)@) == self@.trait_names,
    {
        &self.trait_names
    }

    pub fn mus(&self) -> (mus: &Vec<T>)
        ensures
            mus@ == self@.mus,
    {
        &self.mus
    }

    pub fn taus(&self) -> (taus: &Vec<T>)
        ensures
            taus@ == self@.taus,
    {
        &self.taus
    }

    pub fn betas(&self) -> (betas: &Matrix<T>)
        ensures
            betas@ == self@.betas,
            self.wf() ==> betas.wf() && betas.rows() == self@.n_endos() && betas.cols()
                == self@.n_traits(),
    {
        &self.betas
    }

    pub fn sigmas(&self) -> (sigmas: &Vec<T>)
        ensures
            sigmas@ == self@.sigmas,
    {
        &self.sigmas
    }

    /// The value of one parameter.
    pub fn get(&self, index: ParamIndex) -> (value: &T)
        requires
            self.wf(),
            index.in_range(self@.n_endos(), self@.n_traits()),
        ensures
            *value == self@.param(index),
    {
        match index {
            ParamIndex::Mu(i_endo) => &self.mus[i_endo],
            ParamIndex::Tau(i_endo) => &self.taus[i_endo],
            ParamIndex::Beta(i_endo, i_trait) => self.betas.get(i_endo, i_trait),
            ParamIndex::Sigma(i_trait) => &self.sigmas[i_trait],
        }
    }
}

/// What is said of a flat list that has not as many values as the model has
/// parameters.
pub open spec fn wrong_count_message(n_endos: nat, n_traits: nat, n_values: nat) -> Seq<char> {
    if n_params_spec(n_endos, n_traits) > usize::MAX {
        MSG_TOO_MANY_PARAMS@
    } else {
        "Need "@ + decimal(n_params_spec(n_endos, n_traits)) + " values for "@ + decimal(n_traits)
            + " traits, but got "@ + decimal(n_values) + "."@
    }
}

fn wrong_count_error(n_endos: usize, n_traits: usize, n_values: usize) -> (error: Error)
    ensures
        error.kind == ErrorKind::Mocasa,
        error.message@ == wrong_count_message(n_endos as nat, n_traits as nat, n_values as nat),
{
    match checked_n_params(n_endos, n_traits) {
        None => Error::mocasa(MSG_TOO_MANY_PARAMS),
        Some(n_needed) => {
            let mut message = String::from_str("Need ");
            message.append(count_string(n_needed).as_str());
            message.append(" values for ");
            message.append(count_string(n_traits).as_str());
            message.append(" traits, but got ");
            message.append(count_string(n_values).as_str());
            message.append(".");
            Error::new(ErrorKind::Mocasa, message)
        },
    }
}

impl<T: Copy> Params<T> {
    /// Reads a set of parameters from the flat list of their values, for
    /// `n_endos` endophenotypes and the traits named. Refused where the list
    /// has not as many values as the model has parameters.
    pub fn from_vec(values: &Vec<T>, trait_names: Arc<Vec<String>>, n_endos: usize) -> (outcome:
        Result<Self, Error>)
        ensures
            values@.len() == n_params_spec(n_endos as nat, (*trait_names)@.len()) ==> outcome is Ok
                && outcome->Ok_0.wf() && outcome->Ok_0.names() == (*trait_names)@
                && outcome->Ok_0@ == ParamsView::from_flat(
                values@,
                views((*trait_names)@),
                n_endos as nat,
            ),
            values@.len() != n_params_spec(n_endos as nat, (*trait_names)@.len()) ==> outcome is Err
                && outcome->Err_0.kind == ErrorKind::Mocasa && outcome->Err_0.message@
                == wrong_count_message(n_endos as nat, (*trait_names)@.len(), values@.len()),
    {
        let n_traits = trait_names.len();
        let n_values = values.len();
        let fits = match checked_n_params(n_endos, n_traits) {
            Some(n_needed) => n_needed == n_values,
            None => false,
        };
        if !fits {
            return Err(wrong_count_error(n_endos, n_traits, n_values));
        }
        let ghost e = n_endos as nat;
        let ghost t = n_traits as nat;
        let ghost target = ParamsView::from_flat(values@, views((*trait_names)@), e);
        proof {
            assert(e * (2 + t) == 2 * e + e * t) by (nonlinear_arith);
            assert(e * t >= 0) by (nonlinear_arith);
        }
        let mut mus: Vec<T> = Vec::new();
        let mut taus: Vec<T> = Vec::new();
        let mut i_endo: usize = 0;
        while i_endo < n_endos
            invariant
                i_endo <= n_endos,
                2 * n_endos <= values@.len(),
                values@.len() == n_values,
                mus@.len() == i_endo,
                taus@.len() == i_endo,
                forall|k: int| 0 <= k < i_endo ==> (#[trigger] mus@[k]) == values@[k],
                forall|k: int| 0 <= k < i_endo ==> (#[trigger] taus@[k]) == values@[n_endos + k],
            decreases n_endos - i_endo,
        {
            mus.push(values[i_endo]);
            taus.push(values[n_endos + i_endo]);
            i_endo += 1;
        }
        let i_beta00 = 2 * n_endos;
        let n_betas = n_endos * n_traits;
        let mut betas_elements: Vec<T> = Vec::new();
        let mut i: usize = 0;
        while i < n_betas
            invariant
                i <= n_betas,
                i_beta00 + n_betas <= values@.len(),
                values@.len() == n_values,
                betas_elements@.len() == i,
                forall|k: int|
                    0 <= k < i ==> (#[trigger] betas_elements@[k]) == values@[i_beta00 + k],
            decreases n_betas - i,
        {
            betas_elements.push(values[i_beta00 + i]);
            i += 1;
        }
        let i_sigma0 = i_beta00 + n_betas;
        let mut sigmas: Vec<T> = Vec::new();
        let mut i_trait: usize = 0;
        while i_trait < n_traits
            invariant
                i_trait <= n_traits,
                i_sigma0 + n_traits <= values@.len(),
                values@.len() == n_values,
                sigmas@.len() == i_trait,
                forall|k: int|
                    0 <= k < i_trait ==> (#[trigger] sigmas@[k]) == values@[i_sigma0 + k],
            decreases n_traits - i_trait,
        {
            sigmas.push(values[i_sigma0 + i_trait]);
            i_trait += 1;
        }
        match Matrix::from_vec(n_endos, n_traits, betas_elements) {
            Err(error) => Err(error),
            Ok(betas) => {
                proof {
                    betas.lemma_view();
                    assert(mus@ =~= target.mus);
                    assert(taus@ =~= target.taus);
                    assert(sigmas@ =~= target.sigmas);
                    assert(betas@.len() == target.betas.len());
                    assert forall|k: int| 0 <= k < e implies (#[trigger] betas@[k])
                        =~= target.betas[k] by {
                        assert forall|c: int| 0 <= c < t implies betas@[k][c]
                            == target.betas[k][c] by {
                            crate::matrix::lemma_place_in_range(e, t, k, c);
                        }
                    }
                    assert(betas@ =~= target.betas);
                }
                Ok(Params { trait_names, mus, taus, betas, sigmas })
            },
        }
    }

    /// The values of all parameters as one flat list.
    pub fn to_vec(&self) -> (values: Vec<T>)
        requires
            self.wf(),
            n_params_spec(self@.n_endos(), self@.n_traits()) <= usize::MAX,
        ensures
            values@ == self@.flat(),
    {
        let n_endos = self.mus.len();
        let n_traits = self.sigmas.len();
        let all = ParamIndex::all(n_endos, n_traits);
        let mut values: Vec<T> = Vec::new();
        let mut k: usize = 0;
        while k < all.len()
            invariant
                self.wf(),
                n_endos == self@.n_endos(),
                n_traits == self@.n_traits(),
                n_params_spec(n_endos as nat, n_traits as nat) <= usize::MAX,
                all@.len() == n_params_spec(n_endos as nat, n_traits as nat),
                forall|j: int|
                    0 <= j < all@.len() ==> (#[trigger] all@[j]) == ParamIndex::at(
                        j,
                        n_endos as nat,
                        n_traits as nat,
                    ),
                k <= all@.len(),
                values@.len() == k,
                forall|j: int| 0 <= j < k ==> (#[trigger] values@[j]) == self@.flat()[j],
            decreases all@.len() - k,
        {
            proof {
                lemma_ordinal_at(k as int, n_endos as nat, n_traits as nat);
            }
            values.push(*self.get(all[k]));
            k += 1;
        }
        proof {
            assert(values@ =~= self@.flat());
        }
        values
    }

    /// The parameters for a choice of the traits: the columns `is_cols` of
    /// the loadings and of the residual standard deviations, under the names
    /// given for them.
    pub fn reduce_to(&self, trait_names: Arc<Vec<String>>, is_cols: &Vec<usize>) -> (reduced: Self)
        requires
            self.wf(),
            is_cols@.len() == (*trait_names)@.len(),
            forall|k: int| 0 <= k < is_cols@.len() ==> (#[trigger] is_cols@[k]) < self@.n_traits(),
            self@.n_endos() * is_cols@.len() <= usize::MAX,
        ensures
            reduced.wf(),
            reduced.names() == (*trait_names)@,
            reduced@.trait_names == views((*trait_names)@),
            reduced@.mus == self@.mus,
            reduced@.taus == self@.taus,
            reduced@.sigmas == Seq::new(is_cols@.len(), |k: int| self@.sigmas[is_cols@[k] as int]),
            reduced@.betas == Seq::new(
                self@.n_endos(),
                |i: int| Seq::new(is_cols@.len(), |k: int| self@.betas[i][is_cols@[k] as int]),
            ),
    {
        let mus = copied(&self.mus);
        let taus = copied(&self.taus);
        let betas = self.betas.only_cols(is_cols);
        let mut sigmas: Vec<T> = Vec::new();
        let mut k: usize = 0;
        while k < is_cols.len()
            invariant
                self.wf(),
                k <= is_cols@.len(),
                forall|k: int|
                    0 <= k < is_cols@.len() ==> (#[trigger] is_cols@[k]) < self@.n_traits(),
                sigmas@.len() == k,
                forall|j: int|
                    0 <= j < k ==> (#[trigger] sigmas@[j]) == self@.sigmas[is_cols@[j] as int],
            decreases is_cols@.len() - k,
        {
            sigmas.push(self.sigmas[is_cols[k]]);
            k += 1;
        }
        proof {
            betas.lemma_view();
            self.betas.lemma_view();
            assert(sigmas@ =~= Seq::new(
                is_cols@.len(),
                |k: int| self@.sigmas[is_cols@[k] as int],
            ));
            let target = Seq::new(
                self@.n_endos(),
                |i: int| Seq::new(is_cols@.len(), |k: int| self@.betas[i][is_cols@[k] as int]),
            );
            assert(betas@.len() == target.len());
            assert forall|i: int| 0 <= i < betas@.len() implies (#[trigger] betas@[i])
                =~= target[i] by {}
            assert(betas@ =~= target);
        }
        Params { trait_names, mus, taus, betas, sigmas }
    }

    /// The parameters with every prior mean set to `overwrite.mu` and every
    /// prior standard deviation to `overwrite.tau`, as far as these are given.
    pub fn plus_overwrite(self, overwrite: &ParamsOverride<T>) -> (changed: Self)
        requires
            self.wf(),
        ensures
            changed.wf(),
            changed.names() == self.names(),
            changed@.trait_names == self@.trait_names,
            changed@.betas == self@.betas,
            changed@.sigmas == self@.sigmas,
            changed@.mus == match overwrite.mu {
                Some(mu) => Seq::new(self@.n_endos(), |k: int| mu),
                None => self@.mus,
            },
            changed@.taus == match overwrite.tau {
                Some(tau) => Seq::new(self@.n_endos(), |k: int| tau),
                None => self@.taus,
            },
    {
        let n_endos = self.mus.len();
        let Params { trait_names, mus, taus, betas, sigmas } = self;
        let mus = match overwrite.mu {
            Some(mu) => repeated(mu, n_endos),
            None => mus,
        };
        let taus = match overwrite.tau {
            Some(tau) => repeated(tau, n_endos),
            None => taus,
        };
        Params { trait_names, mus, taus, betas, sigmas }
    }
}

} // verus!
