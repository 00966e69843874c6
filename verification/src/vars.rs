use crate::data::Meta;
use crate::text::count_string;
use crate::text::decimal;
use vstd::prelude::*;
use vstd::string::StringExecFns;

verus! {

/// The name of one latent variable of a chain.
#[derive(Clone, Copy, PartialEq, Eq, Debug, Structural)]
pub enum VarIndex {
    /// The value of an endophenotype for a data point.
    E { i_data_point: usize, i_endo: usize },
    /// The value of a trait for a data point.
    T { i_data_point: usize, i_trait: usize },
}

/// The number of latent variables of a chain.
pub open spec fn n_vars_spec(n_data_points: nat, n_endos: nat, n_traits: nat) -> nat {
    n_data_points * (n_endos + n_traits)
}

impl VarIndex {
    /// Whether the variable exists in a chain of the given size.
    pub open spec fn in_range(self, n_data_points: nat, n_endos: nat, n_traits: nat) -> bool {
        match self {
            VarIndex::E { i_data_point, i_endo } => i_data_point < n_data_points && i_endo
                < n_endos,
            VarIndex::T { i_data_point, i_trait } => i_data_point < n_data_points && i_trait
                < n_traits,
        }
    }

    /// The turn of the variable in a sweep: the data points come one after
    /// the other, and for each first its endophenotypes, then its traits.
    pub open spec fn turn(self, n_endos: nat, n_traits: nat) -> int {
        match self {
            VarIndex::E { i_data_point, i_endo } => i_data_point * (n_endos + n_traits) + i_endo,
            VarIndex::T { i_data_point, i_trait } => i_data_point * (n_endos + n_traits) + n_endos
                + i_trait,
        }
    }

    /// The variable whose turn it is at step `k` of a sweep.
    pub open spec fn at(k: int, n_endos: nat, n_traits: nat) -> VarIndex {
        let per_point = (n_endos + n_traits) as int;
        if k % per_point < n_endos {
            VarIndex::E { i_data_point: (k / per_point) as usize, i_endo: (k % per_point) as usize }
        } else {
            VarIndex::T {
                i_data_point: (k / per_point) as usize,
                i_trait: (k % per_point - n_endos) as usize,
            }
        }
    }
}

/// Each variable of a chain has one turn in a sweep, and it is the variable
/// that the sweep visits at that turn.
pub proof fn lemma_at_turn(index: VarIndex, n_data_points: nat, n_endos: nat, n_traits: nat)
    requires
        index.in_range(n_data_points, n_endos, n_traits),
    ensures
        0 <= index.turn(n_endos, n_traits) < n_vars_spec(n_data_points, n_endos, n_traits),
        VarIndex::at(index.turn(n_endos, n_traits), n_endos, n_traits) == index,
{
    let p = (n_endos + n_traits) as int;
    let (j, r) = match index {
        VarIndex::E { i_data_point, i_endo } => (i_data_point as int, i_endo as int),
        VarIndex::T { i_data_point, i_trait } => (i_data_point as int, n_endos + i_trait),
    };
    crate::matrix::lemma_place_in_range(n_data_points, p as nat, j, r);
    crate::matrix::lemma_place_unique(p as nat, j, r);
}

/// Each step of a sweep visits a variable of the chain, whose turn it is.
pub proof fn lemma_turn_at(k: int, n_data_points: nat, n_endos: nat, n_traits: nat)
    requires
        0 <= k < n_vars_spec(n_data_points, n_endos, n_traits),
        n_vars_spec(n_data_points, n_endos, n_traits) <= usize::MAX,
    ensures
        VarIndex::at(k, n_endos, n_traits).in_range(n_data_points, n_endos, n_traits),
        VarIndex::at(k, n_endos, n_traits).turn(n_endos, n_traits) == k,
{
    let p = (n_endos + n_traits) as int;
    assert(p > 0) by (nonlinear_arith)
        requires
            0 <= k < n_data_points * p,
            p >= 0,
    ;
    crate::params::lemma_quotient_in_range(k, p, n_data_points as int);
}

/// The variable whose turn it is at step `k` of a sweep.
pub fn var_index_at(k: usize, n_endos: usize, n_traits: usize) -> (index: VarIndex)
    requires
        n_endos + n_traits <= usize::MAX,
        n_endos + n_traits > 0,
    ensures
        index == VarIndex::at(k as int, n_endos as nat, n_traits as nat),
{
    let per_point = n_endos + n_traits;
    let i_data_point = k / per_point;
    let rest = k % per_point;
    if rest < n_endos {
        VarIndex::E { i_data_point, i_endo: rest }
    } else {
        VarIndex::T { i_data_point, i_trait: rest - n_endos }
    }
}

/// The variables of a chain in the order in which a sweep visits them.
pub fn indices(n_data_points: usize, n_endos: usize, n_traits: usize) -> (all: Vec<VarIndex>)
    requires
        n_endos + n_traits <= usize::MAX,
        n_vars_spec(n_data_points as nat, n_endos as nat, n_traits as nat) <= usize::MAX,
    ensures
        all@.len() == n_vars_spec(n_data_points as nat, n_endos as nat, n_traits as nat),
        forall|k: int|
            0 <= k < all@.len() ==> (#[trigger] all@[k]) == VarIndex::at(
                k,
                n_endos as nat,
                n_traits as nat,
            ),
{
    let ghost e = n_endos as nat;
    let ghost t = n_traits as nat;
    let ghost p = (n_endos + n_traits) as nat;
    let mut all: Vec<VarIndex> = Vec::new();
    let mut i_data_point: usize = 0;
    while i_data_point < n_data_points
        invariant
            i_data_point <= n_data_points,
            e == n_endos,
            t == n_traits,
            p == e + t,
            n_data_points * p <= usize::MAX,
            all@.len() == i_data_point * p,
            forall|k: int| 0 <= k < all@.len() ==> (#[trigger] all@[k]) == VarIndex::at(k, e, t),
        decreases n_data_points - i_data_point,
    {
        let mut i_endo: usize = 0;
        while i_endo < n_endos
            invariant
                i_data_point < n_data_points,
                i_endo <= n_endos,
                e == n_endos,
                t == n_traits,
                p == e + t,
                all@.len() == i_data_point * p + i_endo,
                forall|k: int|
                    0 <= k < all@.len() ==> (#[trigger] all@[k]) == VarIndex::at(k, e, t),
            decreases n_endos - i_endo,
        {
            proof {
                lemma_at_turn(
                    VarIndex::E { i_data_point, i_endo },
                    (i_data_point + 1) as nat,
                    e,
                    t,
                );
            }
            all.push(VarIndex::E { i_data_point, i_endo });
            i_endo += 1;
        }
        let mut i_trait: usize = 0;
        while i_trait < n_traits
            invariant
                i_data_point < n_data_points,
                i_trait <= n_traits,
                e == n_endos,
                t == n_traits,
                p == e + t,
                all@.len() == i_data_point * p + n_endos + i_trait,
                forall|k: int|
                    0 <= k < all@.len() ==> (#[trigger] all@[k]) == VarIndex::at(k, e, t),
            decreases n_traits - i_trait,
        {
            proof {
                lemma_at_turn(
                    VarIndex::T { i_data_point, i_trait },
                    (i_data_point + 1) as nat,
                    e,
                    t,
                );
            }
            all.push(VarIndex::T { i_data_point, i_trait });
            i_trait += 1;
        }
        proof {
            assert((i_data_point + 1) * p == i_data_point * p + p) by (nonlinear_arith);
        }
        i_data_point += 1;
    }
    all
}

/// The names of the variables of one data point, in the order of a sweep:
/// `E_` and a number for each endophenotype, then `T_` and its name for each
/// trait.
pub open spec fn variable_names_spec(n_endos: nat, trait_names: Seq<Seq<char>>) -> Seq<Seq<char>> {
    Seq::new(n_endos, |i: int| "E_"@ + decimal(i as nat)) + Seq::new(
        trait_names.len(),
        |i: int| "T_"@ + trait_names[i],
    )
}

/// Names the variables of one data point.
pub fn variable_names(meta: &Meta, n_endos: usize) -> (names: Vec<String>)
    ensures
        crate::text::views(names@) == variable_names_spec(n_endos as nat, meta.names()),
{
    let mut names: Vec<String> = Vec::new();
    let mut i_endo: usize = 0;
    while i_endo < n_endos
        invariant
            i_endo <= n_endos,
            names@.len() == i_endo,
            forall|i: int| 0 <= i < i_endo ==> (#[trigger] names@[i])@ == "E_"@ + decimal(i as nat),
        decreases n_endos - i_endo,
    {
        let mut name = String::from_str("E_");
        name.append(count_string(i_endo).as_str());
        names.push(name);
        i_endo += 1;
    }
    let trait_names = meta.trait_names();
    let mut i_trait: usize = 0;
    while i_trait < trait_names.len()
        invariant
            *trait_names == *meta.trait_names,
            i_trait <= trait_names@.len(),
            names@.len() == n_endos + i_trait,
            forall|i: int| 0 <= i < n_endos ==> (#[trigger] names@[i])@ == "E_"@ + decimal(i as nat),
            forall|i: int|
                0 <= i < i_trait ==> (#[trigger] names@[n_endos + i])@ == "T_"@ + meta.names()[i],
        decreases trait_names@.len() - i_trait,
    {
        let mut name = String::from_str("T_");
        name.append(trait_names[i_trait].as_str());
        names.push(name);
        i_trait += 1;
    }
    proof {
        let target = variable_names_spec(n_endos as nat, meta.names());
        let got = crate::text::views(names@);
        assert(meta.names().len() == trait_names@.len());
        assert(got.len() == target.len());
        assert forall|i: int| 0 <= i < got.len() implies got[i] == target[i] by {
            if i >= n_endos {
                assert(names@[n_endos + (i - n_endos)]@ == "T_"@ + meta.names()[i - n_endos]);
            } else {
                assert(names@[i]@ == "E_"@ + decimal(i as nat));
            }
        }
        assert(got =~= target);
    }
    names
}

} // verus!
